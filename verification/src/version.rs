//! The version message that opens the exchange with a peer.

use std::time::SystemTimeError;
use vstd::prelude::*;
use vstd::utf8::encode_utf8;

use crate::clock::{chance_gave, clock_gave, draw_nonce, read_clock};
use crate::config::{Config, SocketAddr};
use crate::decode::version_in;
use crate::error::{DecodeError, Error};
use crate::message::{
    address_bytes, version_bytes, words_bytes, Address, AddressModel, ServiceFlags, VersionMessage, VersionModel,
    PROTOCOL_VERSION, WITNESS,
};
use crate::round_trip::{law_version, law_version_len, lemma_pieces};
use crate::wire::{be16_bytes, le_bytes};

verus! {

/// The groups of an IPv6 address, or of the IPv6 address that an IPv4 address
/// is mapped to.
pub open spec fn ip_words(socket: SocketAddr) -> Seq<u16> {
    match socket {
        SocketAddr::V4 { ip, .. } => seq![
            0u16,
            0,
            0,
            0,
            0,
            0xFFFF,
            (ip[0] * 256 + ip[1]) as u16,
            (ip[2] * 256 + ip[3]) as u16,
        ],
        SocketAddr::V6 { ip, .. } => ip@,
    }
}

/// The port of a socket address.
pub open spec fn port_of(socket: SocketAddr) -> u16 {
    match socket {
        SocketAddr::V4 { port, .. } => port,
        SocketAddr::V6 { port, .. } => port,
    }
}

/// The network address of a node at `socket` with these services.
pub open spec fn address_of(socket: SocketAddr, services: u64) -> AddressModel {
    AddressModel { services, address: ip_words(socket), port: port_of(socket) }
}

/// The network address of a node that is not known.
pub open spec fn unknown_address(services: u64) -> AddressModel {
    AddressModel { services, address: seq![0u16, 0, 0, 0, 0, 0xFFFF, 0, 0], port: 0 }
}

/// The version message to a node at `address`, if that is known: we can be
/// asked for witness data, and want no transactions to be announced to us.
pub open spec fn version_model(
    config: Config,
    address: Option<SocketAddr>,
    nonce: u64,
    timestamp: i64,
) -> VersionModel {
    VersionModel {
        version: PROTOCOL_VERSION,
        services: WITNESS,
        timestamp,
        receiver: match address {
            Some(socket) => address_of(socket, WITNESS),
            None => unknown_address(WITNESS),
        },
        sender: unknown_address(WITNESS),
        nonce,
        user_agent: config.user_agent@,
        start_height: config.block_height,
        relay: false,
    }
}

impl Address {
    /// The network address of a node at `socket` with these services.
    pub fn new(socket: &SocketAddr, services: ServiceFlags) -> (r: Address)
        ensures
            r@ == address_of(*socket, services.bits),
    {
        let r = match socket {
            SocketAddr::V4 { ip, port } => {
                let high: u16 = ip[0] as u16 * 256 + ip[1] as u16;
                let low: u16 = ip[2] as u16 * 256 + ip[3] as u16;
                let address: [u16; 8] = [0, 0, 0, 0, 0, 0xFFFF, high, low];
                Address { services, address, port: *port }
            },
            SocketAddr::V6 { ip, port, .. } => Address { services, address: *ip, port: *port },
        };
        assert(r@.address =~= ip_words(*socket));
        r
    }
}

impl VersionMessage {
    /// A version message of our protocol version, which wants no transactions
    /// to be announced.
    pub fn new(
        services: ServiceFlags,
        timestamp: i64,
        receiver: Address,
        sender: Address,
        nonce: u64,
        user_agent: String,
        start_height: i32,
    ) -> (r: VersionMessage)
        ensures
            r@ == (VersionModel {
                version: PROTOCOL_VERSION,
                services: services.bits,
                timestamp,
                receiver: receiver@,
                sender: sender@,
                nonce,
                user_agent: user_agent@,
                start_height,
                relay: false,
            }),
    {
        VersionMessage {
            version: PROTOCOL_VERSION,
            services,
            timestamp,
            receiver,
            sender,
            nonce,
            user_agent,
            start_height,
            relay: false,
        }
    }
}

/// The version message to a node at `address`, if that is known, with the given
/// nonce and time.
pub fn version_message(
    config: &Config,
    address: Option<SocketAddr>,
    nonce: u64,
    timestamp: i64,
) -> (r: VersionMessage)
    ensures
        r@ == version_model(*config, address, nonce, timestamp),
{
    let empty_address = SocketAddr::V4 { ip: [0, 0, 0, 0], port: 0 };
    let services = ServiceFlags::witness();
    let receiver = match address {
        Some(socket) => Address::new(&socket, services),
        None => Address::new(&empty_address, services),
    };
    let sender = Address::new(&empty_address, services);
    assert(sender@.address =~= unknown_address(WITNESS).address);
    VersionMessage::new(
        services,
        timestamp,
        receiver,
        sender,
        nonce,
        config.user_agent.clone(),
        config.block_height,
    )
}

/// The time in a version message for a number of seconds since 1970.
pub fn timestamp_of(seconds: u64) -> (r: Result<i64, Error>)
    ensures
        r is Ok <==> seconds <= i64::MAX,
        r matches Ok(timestamp) ==> timestamp == seconds,
        r matches Err(e) ==> e is TimestampOverflow,
{
    if seconds <= i64::MAX as u64 {
        Ok(seconds as i64)
    } else {
        Err(Error::TimestampOverflow)
    }
}

/// Whether `r` is what comes of a nonce and of the seconds since 1970 that the
/// clock gives: an error if and only if the clock stands before 1970 or gives
/// more seconds than the message can hold, and else the message with them.
pub open spec fn version_outcome(
    config: Config,
    address: Option<SocketAddr>,
    nonce: u64,
    seconds: Result<u64, SystemTimeError>,
    r: Result<VersionMessage, Error>,
) -> bool {
    match seconds {
        Err(e) => r == Err::<VersionMessage, Error>(Error::SystemTime(e)),
        Ok(s) => if s <= i64::MAX {
            r matches Ok(m) && m@ == version_model(config, address, nonce, s as i64)
        } else {
            r == Err::<VersionMessage, Error>(Error::TimestampOverflow)
        },
    }
}

/// The version message to a node at `address`, if that is known, with the given
/// nonce and the seconds since 1970 that the clock gives. Only the clock can
/// make it fail.
pub fn version_message_at(
    config: &Config,
    address: Option<SocketAddr>,
    nonce: u64,
    seconds: Result<u64, SystemTimeError>,
) -> (r: Result<VersionMessage, Error>)
    ensures
        version_outcome(*config, address, nonce, seconds, r),
{
    let seconds: u64 = match seconds {
        Err(e) => return Err(Error::SystemTime(e)),
        Ok(seconds) => seconds,
    };
    match timestamp_of(seconds) {
        Err(e) => Err(e),
        Ok(timestamp) => Ok(version_message(config, address, nonce, timestamp)),
    }
}

/// The version message to a node at `address`, if that is known, with a random
/// nonce and the time of the clock. Fails where the clock stands before 1970,
/// or gives a number of seconds that the message cannot hold.
pub fn build_version_message(config: &Config, address: Option<SocketAddr>) -> (r: Result<
    VersionMessage,
    Error,
>)
    ensures
        exists|nonce: u64, seconds: Result<u64, SystemTimeError>|
            {
                &&& chance_gave(nonce)
                &&& clock_gave(seconds)
                &&& #[trigger] version_outcome(*config, address, nonce, seconds, r)
            },
{
    let nonce: u64 = draw_nonce();
    let seconds = read_clock();
    version_message_at(config, address, nonce, seconds)
}

/// Our version message can be written, where the user agent leaves room for the
/// other fields, and comes back as it is.
pub proof fn law_version_message(
    config: Config,
    address: Option<SocketAddr>,
    nonce: u64,
    timestamp: i64,
    rest: Seq<u8>,
)
    requires
        encode_utf8(config.user_agent@).len() <= u32::MAX - 90,
    ensures
        version_bytes(version_model(config, address, nonce, timestamp)).len() <= u32::MAX,
        version_in(version_bytes(version_model(config, address, nonce, timestamp)) + rest) == Ok::<
            VersionModel,
            DecodeError,
        >(version_model(config, address, nonce, timestamp)),
{
    let v = version_model(config, address, nonce, timestamp);
    law_version_len(v);
    law_version(v, rest);
}

/// How addresses are written: an IPv4 address as its four bytes behind ten zeros
/// and two bytes of ones, an IPv6 address as its groups, whatever its flow and
/// scope are; then the port.
pub proof fn law_addresses(
    ip: [u8; 4],
    groups: [u16; 8],
    port: u16,
    flowinfo: u32,
    scope_id: u32,
    services: u64,
)
    ensures
        address_bytes(address_of(SocketAddr::V4 { ip, port }, services)) == le_bytes(
            services as nat,
            8,
        ) + seq![0u8, 0, 0, 0, 0, 0, 0, 0, 0, 0, 0xFF, 0xFF] + ip@ + be16_bytes(port),
        address_of(SocketAddr::V6 { ip: groups, port, flowinfo, scope_id }, services) == (
        AddressModel { services, address: groups@, port }),
        address_bytes(unknown_address(services)) == le_bytes(services as nat, 8) + seq![
            0u8,
            0,
            0,
            0,
            0,
            0,
            0,
            0,
            0,
            0,
            0xFF,
            0xFF,
            0,
            0,
            0,
            0,
            0,
            0,
        ],
{
    lemma_words(ip_words(SocketAddr::V4 { ip, port }));
    lemma_words(unknown_address(services).address);
    assert(words_bytes(ip_words(SocketAddr::V4 { ip, port })) =~= seq![
        0u8,
        0,
        0,
        0,
        0,
        0,
        0,
        0,
        0,
        0,
        0xFF,
        0xFF,
    ] + ip@);
    assert(words_bytes(unknown_address(services).address) + be16_bytes(0) =~= seq![
        0u8,
        0,
        0,
        0,
        0,
        0,
        0,
        0,
        0,
        0,
        0xFF,
        0xFF,
        0,
        0,
        0,
        0,
        0,
        0,
    ]);
    assert(address_bytes(address_of(SocketAddr::V4 { ip, port }, services)) =~= le_bytes(
        services as nat,
        8,
    ) + seq![0u8, 0, 0, 0, 0, 0, 0, 0, 0, 0, 0xFF, 0xFF] + ip@ + be16_bytes(port));
    assert(address_bytes(unknown_address(services)) =~= le_bytes(services as nat, 8) + (
    words_bytes(unknown_address(services).address) + be16_bytes(0)));
}

/// Eight groups in big-endian order, byte by byte.
proof fn lemma_words(words: Seq<u16>)
    requires
        words.len() == 8,
    ensures
        words_bytes(words).len() == 16,
        forall|k: int|
            0 <= k < 8 ==> words_bytes(words)[2 * k] == #[trigger] words[k] / 256
                && words_bytes(words)[2 * k + 1] == words[k] % 256,
{
    let pieces = words.map_values(|w: u16| be16_bytes(w));
    lemma_pieces(pieces, 2, 0);
    assert forall|k: int| 0 <= k < 8 implies words_bytes(words)[2 * k] == #[trigger] words[k] / 256
        && words_bytes(words)[2 * k + 1] == words[k] % 256 by {
        lemma_pieces(pieces, 2, k);
        let piece = pieces.flatten().subrange(2 * k, 2 * k + 2);
        assert(piece[0] == pieces.flatten()[2 * k]);
        assert(piece[1] == pieces.flatten()[2 * k + 1]);
    }
}

/// Our version message says what it was given, whatever that is, and the rest is
/// the same in all of them: our protocol version, that we can be asked for
/// witness data and for nothing else, at every address too, that we have no
/// address of our own to tell, and that we want no transactions.
pub proof fn law_our_version(
    config: Config,
    address: Option<SocketAddr>,
    nonce: u64,
    timestamp: i64,
)
    ensures
        ({
            let v = version_model(config, address, nonce, timestamp);
            &&& v.version == 70001
            &&& v.services == 8
            &&& v.timestamp == timestamp
            &&& v.nonce == nonce
            &&& v.user_agent == config.user_agent@
            &&& v.start_height == config.block_height
            &&& !v.relay
            &&& v.sender == unknown_address(8)
            &&& v.receiver == match address {
                Some(socket) => address_of(socket, 8),
                None => unknown_address(8),
            }
            &&& v.receiver.services == 8
            &&& v.sender.services == 8
            &&& v.sender.port == 0
        }),
{
}

/// The time in the message is the number of seconds that the clock gave, and not
/// another; and a version message there is if and only if the clock gave a
/// number of seconds that one can hold, whatever the options and the address
/// are.
pub proof fn law_time(
    config: Config,
    address: Option<SocketAddr>,
    nonce: u64,
    seconds: Result<u64, SystemTimeError>,
    r: Result<VersionMessage, Error>,
)
    requires
        version_outcome(config, address, nonce, seconds, r),
    ensures
        r matches Ok(m) ==> seconds is Ok && m.timestamp == seconds->Ok_0 && m.nonce == nonce
            && m@ == version_model(config, address, nonce, m.timestamp),
        r is Ok <==> seconds is Ok && seconds->Ok_0 < 0x8000_0000_0000_0000,
        seconds matches Err(e) ==> r == Err::<VersionMessage, Error>(Error::SystemTime(e)),
        seconds is Ok && r is Err ==> r->Err_0 is TimestampOverflow,
{
}

} // verus!
