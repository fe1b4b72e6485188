//! The options for sending a transaction.

use vstd::prelude::*;

verus! {

/// The address of a socket.
#[derive(Debug, Clone, Copy, PartialEq, Eq)]
pub enum SocketAddr {
    /// An IPv4 address and a port.
    V4 {
        /// The four numbers of the address.
        ip: [u8; 4],
        /// The port.
        port: u16,
    },
    /// An IPv6 address and a port.
    V6 {
        /// The eight groups of the address.
        ip: [u16; 8],
        /// The port.
        port: u16,
        /// The flow information.
        flowinfo: u32,
        /// The scope.
        scope_id: u32,
    },
}

/// A length of time: seconds, and a number of nanoseconds below one second.
#[derive(Debug, Clone, Copy, PartialEq, Eq)]
pub struct Timeout {
    /// The seconds.
    pub secs: u64,
    /// The nanoseconds.
    pub nanos: u32,
}

/// Config options for sending.
#[non_exhaustive]
#[derive(Debug, Clone, PartialEq, Eq)]
pub struct Config {
    /// The user agent for the initial version message.
    ///
    /// Defaults to `"/Satoshi:23.0.0/"`.
    pub user_agent: String,
    /// The block height for the initial version message.
    ///
    /// Defaults to `749_000`.
    pub block_height: i32,
    /// The network magic to use.
    ///
    /// Defaults to that of the main network, `F9 BE B4 D9`.
    pub magic: [u8; 4],
    /// The timeout for the initial connection to the node.
    ///
    /// Defaults to 30 seconds, which might not be long enough for tor.
    pub connection_timeout: Timeout,
    /// The timeout for the handshake, sending inv, receiving getdata, and
    /// finally sending the tx message. A node that already has the transaction
    /// does not respond with getdata, so a timeout here does not necessarily
    /// mean that the node does not have the transaction.
    ///
    /// Defaults to 30 seconds.
    pub send_tx_timeout: Timeout,
    /// The tor SOCKS5 proxy to send through if using tor.
    ///
    /// Defaults to `127.0.0.1:9050`.
    pub tor_proxy: SocketAddr,
}

impl Default for Config {
    fn default() -> (r: Self)
        ensures
            r.user_agent@ == "/Satoshi:23.0.0/"@,
            r.block_height == 749_000,
            r.magic@ == seq![0xF9u8, 0xBE, 0xB4, 0xD9],
            r.connection_timeout == (Timeout { secs: 30, nanos: 0 }),
            r.send_tx_timeout == (Timeout { secs: 30, nanos: 0 }),
            r.tor_proxy matches SocketAddr::V4 { ip, port } && ip@ == seq![127u8, 0, 0, 1] && port
                == 9050,
    {
        let magic: [u8; 4] = [0xF9, 0xBE, 0xB4, 0xD9];
        let ip: [u8; 4] = [127, 0, 0, 1];
        assert(magic@ =~= seq![0xF9u8, 0xBE, 0xB4, 0xD9]);
        assert(ip@ =~= seq![127u8, 0, 0, 1]);
        Config {
            user_agent: "/Satoshi:23.0.0/".to_string(),
            block_height: 749_000,
            magic,
            connection_timeout: Timeout { secs: 30, nanos: 0 },
            send_tx_timeout: Timeout { secs: 30, nanos: 0 },
            tor_proxy: SocketAddr::V4 { ip, port: 9050 },
        }
    }
}

} // verus!
