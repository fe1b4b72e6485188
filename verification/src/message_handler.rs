//! The protocol by which a transaction is offered to a peer and sent to it.

use vstd::prelude::*;

use crate::error::{Error, ErrorModel};
use crate::message::{
    has_flags, inventories, message_bytes, version_bytes, Inventory, InventoryModel, MessageModel,
    NetworkMessage, ServiceFlags, VersionMessage, PROTOCOL_VERSION, WITNESS,
};
use crate::outside::{
    compute_txid, compute_wtxid, double_sha256, serialize_short, serialize_tx, serialize_version,
    ShortMessage,
};
use crate::transaction::{stripped_bytes, tx_bytes, Transaction, TxModel};

verus! {

/// How far the exchange with the peer has come.
#[derive(Debug, PartialEq, Eq, Clone, Copy, Structural)]
pub enum BroadcastState {
    /// Nothing has been sent yet.
    Connected,
    /// Our version message has been sent.
    AwaitingVersion,
    /// The peer's version message has been answered.
    AwaitingVerack,
    /// The transaction has been announced.
    AwaitingGetData,
    /// The transaction has been sent.
    Done,
}

/// Offers one transaction to one peer: decides what is sent in reply to each
/// message that the peer sends.
pub struct MessageHandler {
    magic: [u8; 4],
    use_wtxid: bool,
    tx: Transaction,
    state: BroadcastState,
}

/// The answer to a message.
pub struct Reply {
    /// What to write to the peer, in this order.
    pub writes: Vec<Vec<u8>>,
    /// What becomes of the handler once all of it has been written.
    pub then_on: Progress,
}

/// What writing a reply changes in a handler.
#[derive(Clone, Copy)]
pub struct Progress {
    use_wtxid: bool,
    state: BroadcastState,
}

/// What a [`MessageHandler`] is.
pub struct HandlerModel {
    pub magic: Seq<u8>,
    pub use_wtxid: bool,
    pub tx: TxModel,
    pub state: BroadcastState,
}

/// What a message makes a handler do: the messages that it sends, and the
/// handler once they have been sent.
pub struct Reaction {
    pub sent: Seq<MessageModel>,
    pub after: HandlerModel,
}

impl View for MessageHandler {
    type V = HandlerModel;

    closed spec fn view(&self) -> HandlerModel {
        HandlerModel {
            magic: self.magic@,
            use_wtxid: self.use_wtxid,
            tx: self.tx@,
            state: self.state,
        }
    }
}

impl Progress {
    /// What `h` becomes.
    pub closed spec fn of(self, h: HandlerModel) -> HandlerModel {
        HandlerModel { use_wtxid: self.use_wtxid, state: self.state, ..h }
    }
}

/// A handler that has sent nothing yet.
pub open spec fn connected(magic: Seq<u8>, tx: TxModel) -> HandlerModel {
    HandlerModel { magic, use_wtxid: false, tx, state: BroadcastState::Connected }
}

/// A handler that has sent our version message.
pub open spec fn greeted(magic: Seq<u8>, tx: TxModel) -> HandlerModel {
    HandlerModel { state: BroadcastState::AwaitingVersion, ..connected(magic, tx) }
}

/// The id of a transaction, which its witnesses do not change.
pub open spec fn txid(tx: TxModel) -> Seq<u8> {
    double_sha256(stripped_bytes(tx))
}

/// The id of a transaction with its witnesses.
pub open spec fn wtxid(tx: TxModel) -> Seq<u8> {
    double_sha256(tx_bytes(tx))
}

/// What `h` announces its transaction as.
pub open spec fn announced(h: HandlerModel) -> InventoryModel {
    if h.use_wtxid {
        InventoryModel::WTx(wtxid(h.tx))
    } else {
        InventoryModel::Transaction(txid(h.tx))
    }
}

/// Whether a peer that asks for `items` asks for the transaction of `h`.
pub open spec fn asks_for_tx(h: HandlerModel, items: Seq<InventoryModel>) -> bool {
    items.contains(announced(h)) || !h.use_wtxid && items.contains(
        InventoryModel::WitnessTransaction(txid(h.tx)),
    )
}

/// The answer to a version message with this version number.
pub open spec fn handshake(version: u32) -> Seq<MessageModel> {
    if version == PROTOCOL_VERSION {
        seq![MessageModel::WtxidRelay, MessageModel::SendAddrV2, MessageModel::Verack]
    } else {
        seq![MessageModel::Verack]
    }
}

/// The name of a state.
pub open spec fn state_name(state: BroadcastState) -> Seq<char> {
    match state {
        BroadcastState::Connected => "Connected"@,
        BroadcastState::AwaitingVersion => "AwaitingVersion"@,
        BroadcastState::AwaitingVerack => "AwaitingVerack"@,
        BroadcastState::AwaitingGetData => "AwaitingGetData"@,
        BroadcastState::Done => "Done"@,
    }
}

/// Whether a message `m` may come in `state`. What a peer may send at any time
/// are the messages that are of no interest here.
pub open spec fn in_order(state: BroadcastState, m: MessageModel) -> bool {
    match m {
        MessageModel::Version(_) => state == BroadcastState::AwaitingVersion,
        MessageModel::Verack
        | MessageModel::WtxidRelay
        | MessageModel::SendAddrV2 => state == BroadcastState::AwaitingVerack,
        MessageModel::GetData(_) => state == BroadcastState::AwaitingGetData,
        MessageModel::Ping(_)
        | MessageModel::Unknown { .. } => state == BroadcastState::AwaitingGetData || state
            == BroadcastState::Done,
        MessageModel::Inv(_)
        | MessageModel::Tx(_)
        | MessageModel::Pong(_)
        | MessageModel::Alert(_) => true,
    }
}

/// What is said of a message `m` that comes out of order in `state`.
pub open spec fn out_of_order(state: BroadcastState, m: MessageModel) -> Seq<char> {
    match m {
        MessageModel::Version(_) => "Received version msg out of order"@,
        MessageModel::Verack => "Received verack msg out of order"@,
        MessageModel::WtxidRelay => "Received wtxidrelay msg out of order"@,
        MessageModel::SendAddrV2 => "Received sendaddrv2 msg out of order"@,
        MessageModel::GetData(_) => "Received getdata msg out of order"@,
        MessageModel::Ping(_) => "Received ping msg out of order"@,
        MessageModel::Unknown { command, .. } => "Received "@ + command + " msg out of order "@
            + state_name(state),
        MessageModel::Inv(_)
        | MessageModel::Tx(_)
        | MessageModel::Pong(_)
        | MessageModel::Alert(_) => Seq::empty(),
    }
}

/// What is wrong with a message `m` for `h`, where it comes in order: a peer
/// that takes no transactions, or takes none with witnesses, or asks for
/// something else than what was announced.
pub open spec fn objection(h: HandlerModel, m: MessageModel) -> Option<Seq<char>> {
    match m {
        MessageModel::Version(v) => if !v.relay {
            Some("Node does not relay transactions"@)
        } else if !has_flags(v.services, WITNESS) {
            Some("Node does not support segwit"@)
        } else {
            None
        },
        MessageModel::GetData(items) => if asks_for_tx(h, items) {
            None
        } else if h.use_wtxid {
            Some("Getdata message does not contain our wtxid"@)
        } else {
            Some("Getdata message does not contain our txid"@)
        },
        _ => None,
    }
}

/// What `h` sends in reply to a message `m` that it does not refuse.
pub open spec fn replies(h: HandlerModel, m: MessageModel) -> Seq<MessageModel> {
    match m {
        MessageModel::Version(v) => handshake(v.version),
        MessageModel::Verack => seq![MessageModel::Inv(seq![announced(h)])],
        MessageModel::GetData(_) => seq![MessageModel::Tx(h.tx)],
        MessageModel::Ping(nonce) => seq![MessageModel::Pong(nonce)],
        _ => Seq::empty(),
    }
}

/// What becomes of `h` by a message `m` that it does not refuse.
pub open spec fn advance(h: HandlerModel, m: MessageModel) -> HandlerModel {
    match m {
        MessageModel::Version(_) => HandlerModel { state: BroadcastState::AwaitingVerack, ..h },
        MessageModel::Verack => HandlerModel { state: BroadcastState::AwaitingGetData, ..h },
        MessageModel::WtxidRelay => HandlerModel { use_wtxid: true, ..h },
        MessageModel::GetData(_) => HandlerModel { state: BroadcastState::Done, ..h },
        _ => h,
    }
}

/// How `h` takes a message `m`: the reply, or why it is refused.
pub open spec fn reaction(h: HandlerModel, m: MessageModel) -> Result<Reaction, Seq<char>> {
    if !in_order(h.state, m) {
        Err(out_of_order(h.state, m))
    } else {
        match objection(h, m) {
            Some(text) => Err(text),
            None => Ok(Reaction { sent: replies(h, m), after: advance(h, m) }),
        }
    }
}

/// What a list of byte strings is.
pub open spec fn chunks(writes: Seq<Vec<u8>>) -> Seq<Seq<u8>> {
    writes.map_values(|w: Vec<u8>| w@)
}

/// Messages as they go over the network.
pub open spec fn frames(magic: Seq<u8>, messages: Seq<MessageModel>) -> Seq<Seq<u8>> {
    messages.map_values(|m: MessageModel| message_bytes(magic, m))
}

/// Whether two hashes are the same.
fn same_hash(a: &[u8; 32], b: &[u8; 32]) -> (r: bool)
    ensures
        r == (a@ == b@),
{
    let mut i: usize = 0;
    while i < 32
        invariant
            i <= 32,
            forall|k: int| 0 <= k < i ==> a@[k] == b@[k],
        decreases 32 - i,
    {
        if a[i] != b[i] {
            assert(a@[i as int] != b@[i as int]);
            return false;
        }
        i += 1;
    }
    assert(a@ =~= b@);
    true
}

/// Whether two inventory items are the same.
fn same_inventory(a: &Inventory, b: &Inventory) -> (r: bool)
    ensures
        r == (a@ == b@),
{
    match (a, b) {
        (Inventory::Transaction(x), Inventory::Transaction(y)) => same_hash(x, y),
        (Inventory::Block(x), Inventory::Block(y)) => same_hash(x, y),
        (Inventory::CompactBlock(x), Inventory::CompactBlock(y)) => same_hash(x, y),
        (Inventory::WTx(x), Inventory::WTx(y)) => same_hash(x, y),
        (Inventory::WitnessTransaction(x), Inventory::WitnessTransaction(y)) => same_hash(x, y),
        (Inventory::WitnessBlock(x), Inventory::WitnessBlock(y)) => same_hash(x, y),
        (
            Inventory::Unknown { inv_type: t, hash: x },
            Inventory::Unknown { inv_type: u, hash: y },
        ) => *t == *u && same_hash(x, y),
        _ => false,
    }
}

/// Whether `item` is among `items`.
fn contains(items: &Vec<Inventory>, item: &Inventory) -> (r: bool)
    ensures
        r == inventories(items@).contains(item@),
{
    let ghost all = inventories(items@);
    let mut i: usize = 0;
    while i < items.len()
        invariant
            i <= items@.len(),
            all == inventories(items@),
            forall|k: int| 0 <= k < i ==> all[k] != item@,
        decreases items@.len() - i,
    {
        if same_inventory(&items[i], item) {
            assert(all[i as int] == item@);
            return true;
        }
        i += 1;
    }
    false
}

impl BroadcastState {
    /// The name of the state.
    fn name(self) -> (r: String)
        ensures
            r@ == state_name(self),
    {
        match self {
            BroadcastState::Connected => "Connected".to_string(),
            BroadcastState::AwaitingVersion => "AwaitingVersion".to_string(),
            BroadcastState::AwaitingVerack => "AwaitingVerack".to_string(),
            BroadcastState::AwaitingGetData => "AwaitingGetData".to_string(),
            BroadcastState::Done => "Done".to_string(),
        }
    }
}

/// The error of a peer that breaks the protocol.
fn protocol_error(text: &str) -> (r: Error)
    ensures
        r@ == ErrorModel::Protocol(text@),
{
    Error::Protocol(text.to_string())
}

impl MessageHandler {
    #[verifier::type_invariant]
    spec fn tx_fits(self) -> bool {
        tx_bytes(self.tx@).len() <= u32::MAX
    }

    /// A handler that offers `tx` on the network that `magic` stands for. The
    /// header of a message has 32 bits for the length of the transaction.
    pub fn new(magic: [u8; 4], tx: Transaction) -> (r: Self)
        requires
            tx_bytes(tx@).len() <= u32::MAX,
        ensures
            r@ == connected(magic@, tx@),
    {
        MessageHandler { magic, use_wtxid: false, tx, state: BroadcastState::Connected }
    }

    /// How far the exchange has come.
    pub fn state(&self) -> (r: BroadcastState)
        ensures
            r == self@.state,
    {
        self.state
    }

    /// Opens the exchange with our version message.
    pub fn send_version_msg(&self, msg: VersionMessage) -> (r: Reply)
        requires
            version_bytes(msg@).len() <= u32::MAX,
        ensures
            chunks(r.writes@) == frames(self@.magic, seq![MessageModel::Version(msg@)]),
            r.then_on.of(self@) == (HandlerModel {
                state: BroadcastState::AwaitingVersion,
                ..self@
            }),
    {
        let mut writes: Vec<Vec<u8>> = Vec::new();
        writes.push(serialize_version(self.magic, &msg));
        let r = self.reply(writes, BroadcastState::AwaitingVersion);
        assert(chunks(r.writes@) =~= frames(self@.magic, seq![MessageModel::Version(msg@)]));
        r
    }

    /// Takes note that everything in a reply has been written.
    pub fn written(&mut self, then_on: Progress)
        ensures
            final(self)@ == then_on.of(old(self)@),
    {
        proof {
            use_type_invariant(&*self);
        }
        self.use_wtxid = then_on.use_wtxid;
        self.state = then_on.state;
    }

    /// Decides how a message of the peer is answered.
    pub fn handle_message(&self, msg: NetworkMessage) -> (r: Result<Reply, Error>)
        ensures
            match r {
                Ok(reply) => reaction(self@, msg@) matches Ok(re) && chunks(reply.writes@) == frames(
                    self@.magic,
                    re.sent,
                ) && reply.then_on.of(self@) == re.after,
                Err(e) => reaction(self@, msg@) matches Err(text) && e@ == ErrorModel::Protocol(
                    text,
                ),
            },
    {
        match msg {
            NetworkMessage::Version(msg) => {
                if self.state != BroadcastState::AwaitingVersion {
                    return Err(protocol_error("Received version msg out of order"));
                }
                let writes = self.handle_version_msg(&msg)?;
                Ok(self.reply(writes, BroadcastState::AwaitingVerack))
            },
            NetworkMessage::Verack => {
                if self.state != BroadcastState::AwaitingVerack {
                    return Err(protocol_error("Received verack msg out of order"));
                }
                let writes = self.handle_verack_msg();
                Ok(self.reply(writes, BroadcastState::AwaitingGetData))
            },
            NetworkMessage::WtxidRelay => {
                if self.state != BroadcastState::AwaitingVerack {
                    return Err(protocol_error("Received wtxidrelay msg out of order"));
                }
                Ok(self.handle_wtxid_relay_msg())
            },
            NetworkMessage::SendAddrV2 => {
                if self.state != BroadcastState::AwaitingVerack {
                    return Err(protocol_error("Received sendaddrv2 msg out of order"));
                }
                Ok(self.no_reply())
            },
            NetworkMessage::GetData(inv) => {
                if self.state != BroadcastState::AwaitingGetData {
                    return Err(protocol_error("Received getdata msg out of order"));
                }
                let writes = self.handle_get_data(&inv)?;
                Ok(self.reply(writes, BroadcastState::Done))
            },
            NetworkMessage::Ping(nonce) => {
                if self.state != BroadcastState::AwaitingGetData && self.state
                    != BroadcastState::Done {
                    return Err(protocol_error("Received ping msg out of order"));
                }
                let writes = self.handle_ping_msg(nonce);
                Ok(self.reply(writes, self.state))
            },
            NetworkMessage::Unknown { command, payload: _ } => {
                if self.state != BroadcastState::AwaitingGetData && self.state
                    != BroadcastState::Done {
                    let mut text = "Received ".to_string();
                    text.append(command.as_str());
                    text.append(" msg out of order ");
                    text.append(self.state.name().as_str());
                    return Err(Error::Protocol(text));
                }
                Ok(self.no_reply())
            },
            NetworkMessage::Inv(_)
            | NetworkMessage::Tx(_)
            | NetworkMessage::Pong(_)
            | NetworkMessage::Alert(_) => Ok(self.no_reply()),
        }
    }

    /// A reply that changes the state and nothing else.
    fn reply(&self, writes: Vec<Vec<u8>>, state: BroadcastState) -> (r: Reply)
        ensures
            chunks(r.writes@) == chunks(writes@),
            r.then_on.of(self@) == (HandlerModel { state, ..self@ }),
    {
        Reply { writes, then_on: Progress { use_wtxid: self.use_wtxid, state } }
    }

    /// The reply that writes nothing and changes nothing.
    fn no_reply(&self) -> (r: Reply)
        ensures
            chunks(r.writes@) == Seq::<Seq<u8>>::empty(),
            r.then_on.of(self@) == self@,
    {
        self.reply(Vec::new(), self.state)
    }

    /// Answers the peer's version message, unless the peer cannot be sent a
    /// transaction with witnesses.
    fn handle_version_msg(&self, msg: &VersionMessage) -> (r: Result<Vec<Vec<u8>>, Error>)
        ensures
            match r {
                Ok(writes) => objection(self@, MessageModel::Version(msg@)) is None && chunks(
                    writes@,
                ) == frames(self@.magic, handshake(msg.version)),
                Err(e) => objection(self@, MessageModel::Version(msg@)) matches Some(text) && e@
                    == ErrorModel::Protocol(text),
            },
    {
        if !msg.relay {
            return Err(protocol_error("Node does not relay transactions"));
        }
        if !msg.services.has(ServiceFlags::witness()) {
            return Err(protocol_error("Node does not support segwit"));
        }
        let mut writes: Vec<Vec<u8>> = Vec::new();
        if msg.version == PROTOCOL_VERSION {
            writes.push(serialize_short(self.magic, ShortMessage::WtxidRelay));
            writes.push(serialize_short(self.magic, ShortMessage::SendAddrV2));
        }
        writes.push(serialize_short(self.magic, ShortMessage::Verack));
        assert(chunks(writes@) =~= frames(self@.magic, handshake(msg.version)));
        Ok(writes)
    }

    /// Announces the transaction.
    fn handle_verack_msg(&self) -> (r: Vec<Vec<u8>>)
        ensures
            chunks(r@) == frames(
                self@.magic,
                seq![MessageModel::Inv(seq![announced(self@)])],
            ),
    {
        proof {
            use_type_invariant(self);
        }
        let inv = if self.use_wtxid {
            ShortMessage::InvWTx(compute_wtxid(&self.tx))
        } else {
            ShortMessage::InvTransaction(compute_txid(&self.tx))
        };
        let mut writes: Vec<Vec<u8>> = Vec::new();
        writes.push(serialize_short(self.magic, inv));
        assert(chunks(writes@) =~= frames(
            self@.magic,
            seq![MessageModel::Inv(seq![announced(self@)])],
        ));
        writes
    }

    /// From here on the transaction goes by its wtxid.
    fn handle_wtxid_relay_msg(&self) -> (r: Reply)
        ensures
            chunks(r.writes@) == Seq::<Seq<u8>>::empty(),
            r.then_on.of(self@) == (HandlerModel { use_wtxid: true, ..self@ }),
    {
        let then_on = Progress { use_wtxid: true, state: self.state };
        let r = Reply { writes: Vec::new(), then_on };
        assert(chunks(r.writes@) =~= Seq::<Seq<u8>>::empty());
        r
    }

    /// Sends the transaction, if the peer asks for it.
    fn handle_get_data(&self, inv: &Vec<Inventory>) -> (r: Result<Vec<Vec<u8>>, Error>)
        ensures
            match r {
                Ok(writes) => asks_for_tx(self@, inventories(inv@)) && chunks(writes@) == frames(
                    self@.magic,
                    seq![MessageModel::Tx(self@.tx)],
                ),
                Err(e) => objection(self@, MessageModel::GetData(inventories(inv@))) matches Some(
                    text,
                ) && e@ == ErrorModel::Protocol(text),
            },
    {
        proof {
            use_type_invariant(self);
        }
        if self.use_wtxid {
            if !contains(inv, &Inventory::WTx(compute_wtxid(&self.tx))) {
                return Err(protocol_error("Getdata message does not contain our wtxid"));
            }
        } else {
            let txid = compute_txid(&self.tx);
            if !contains(inv, &Inventory::Transaction(txid)) && !contains(
                inv,
                &Inventory::WitnessTransaction(txid),
            ) {
                return Err(protocol_error("Getdata message does not contain our txid"));
            }
        }
        let mut writes: Vec<Vec<u8>> = Vec::new();
        writes.push(serialize_tx(self.magic, &self.tx));
        assert(chunks(writes@) =~= frames(self@.magic, seq![MessageModel::Tx(self@.tx)]));
        Ok(writes)
    }

    /// Shows the peer that the connection is alive.
    fn handle_ping_msg(&self, nonce: u64) -> (r: Vec<Vec<u8>>)
        ensures
            chunks(r@) == frames(self@.magic, seq![MessageModel::Pong(nonce)]),
    {
        let mut writes: Vec<Vec<u8>> = Vec::new();
        writes.push(serialize_short(self.magic, ShortMessage::Pong(nonce)));
        assert(chunks(writes@) =~= frames(self@.magic, seq![MessageModel::Pong(nonce)]));
        writes
    }
}

} // verus!
