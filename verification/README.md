# Bitcoin Send Tx P2P

Sends a Bitcoin transaction to a node over the peer-to-peer protocol, given only
the transaction and the IP or onion address of the node.

`src/` decides and computes, and is verified with Verus:

- `message_handler`: how each message of the node is answered, from the version
  handshake over the announcement to the transaction itself.
- `message_loop`: the exchange as a whole; it is told of what came in and says
  what to write and when to read.
- `reader`, `decode`, `wire`: from a stream of bytes to messages.
- `message`, `transaction`: what messages and transactions are, and how they are
  written.
- `version`, `config`: our own version message, and the options.
- `laws`, `stream_laws`, `exchange_laws`, `round_trip`: what holds of whole
  exchanges and streams, as theorems.
- `outside`: what is taken from the `bitcoin` crate and from std on trust: hashes,
  transaction ids, the bytes of our own messages, chance, the clock and text.

`app/` connects, reads and writes:

```rust
let mut config = Config::default();
config.block_height = 1000;
send_tx_p2p_over_clearnet("127.0.0.1:8333".parse()?, tx.clone(), None).await?;
send_tx_p2p_over_tor("<onion address>:8333", tx, Some(config)).await?;
```
