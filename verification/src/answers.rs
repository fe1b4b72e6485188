//! How each message of a peer is answered, said of the message itself.

use vstd::prelude::*;

use crate::message::{has_flags, message_bytes, InventoryModel, MessageModel, VersionModel};
use crate::message_handler::{
    chunks, connected, frames, greeted, reaction, BroadcastState, HandlerModel, Reaction,
};
use crate::outside::double_sha256;
use crate::transaction::{stripped_bytes, tx_bytes, txin_bytes, TxInModel, TxModel};

verus! {

/// Whether the bit at this position is set.
pub open spec fn bit(x: u64, i: u64) -> bool {
    (x >> i) & 1 == 1
}

/// What a handler answers that keeps to its state and sends nothing.
pub open spec fn passed_over(h: HandlerModel) -> Result<Reaction, Seq<char>> {
    Ok(Reaction { sent: Seq::empty(), after: h })
}

/// Flags are set where every single one of them is set: what else a node offers
/// takes none away, and what it does not offer is not there.
pub proof fn law_flags(bits: u64, wanted: u64, more: u64)
    ensures
        has_flags(bits, wanted) <==> forall|i: u64| i < 64 && #[trigger] bit(wanted, i) ==> bit(
            bits,
            i,
        ),
        has_flags(bits | wanted, wanted),
        has_flags(bits, wanted) ==> has_flags(bits | more, wanted),
        has_flags(bits, wanted | more) <==> has_flags(bits, wanted) && has_flags(bits, more),
        has_flags(bits, 0),
        has_flags(0, wanted) <==> wanted == 0,
{
    assert((bits | wanted) & wanted == wanted) by (bit_vector);
    assert(bits & wanted == wanted ==> (bits | more) & wanted == wanted) by (bit_vector);
    assert(bits & (wanted | more) == (wanted | more) <==> bits & wanted == wanted && bits & more
        == more) by (bit_vector);
    assert(bits & 0 == 0) by (bit_vector);
    assert(0 & wanted == 0) by (bit_vector);
    if bits & wanted == wanted {
        assert forall|i: u64| i < 64 && #[trigger] bit(wanted, i) implies bit(bits, i) by {
            assert(i < 64 && bits & wanted == wanted && (wanted >> i) & 1 == 1 ==> (bits >> i) & 1
                == 1) by (bit_vector);
        }
    } else {
        let missing = wanted & !bits;
        assert(bits & wanted != wanted ==> wanted & !bits != 0) by (bit_vector);
        let i = lemma_some_bit(missing);
        assert(i < 64 && ((wanted & !bits) >> i) & 1 == 1 ==> (wanted >> i) & 1 == 1 && (bits >> i)
            & 1 == 0) by (bit_vector);
        assert(bit(wanted, i) && !bit(bits, i));
    }
}

/// A number other than zero has a bit that is set.
proof fn lemma_some_bit(x: u64) -> (i: u64)
    requires
        x != 0,
    ensures
        i < 64,
        bit(x, i),
{
    lemma_some_bit_below(x, 64)
}

/// A number other than zero that fits in `n` bits has a bit among them that is
/// set.
proof fn lemma_some_bit_below(x: u64, n: u64) -> (i: u64)
    requires
        x != 0,
        n <= 64,
        n == 64 || x >> n == 0,
    ensures
        i < 64,
        bit(x, i),
    decreases n,
{
    if n == 0 {
        assert(x >> 0 == x) by (bit_vector);
        0
    } else {
        let k: u64 = (n - 1) as u64;
        if bit(x, k) {
            k
        } else {
            assert(k < 63 && x >> ((k + 1) as u64) == 0 && (x >> k) & 1 != 1 ==> x >> k == 0)
                by (bit_vector);
            assert((x >> 63) & 1 != 1 ==> x >> 63 == 0) by (bit_vector);
            lemma_some_bit_below(x, k)
        }
    }
}

/// The bit that stands for witness data, found by its position.
pub proof fn lemma_witness_bit(services: u64)
    ensures
        has_flags(services, 8) == bit(services, 3),
{
    assert((services & 8 == 8) == ((services >> 3) & 1 == 1)) by (bit_vector);
}

/// A version message that is awaited is accepted if and only if the node wants
/// transactions and has bit 3 of its services set, whatever else it says; it is
/// answered with a verack, after wtxidrelay and sendaddrv2 where the node has
/// our protocol version. In any other state it is refused.
pub proof fn law_on_version(h: HandlerModel, v: VersionModel)
    ensures
        reaction(h, MessageModel::Version(v)) == if h.state != BroadcastState::AwaitingVersion {
            Err("Received version msg out of order"@)
        } else if !v.relay {
            Err("Node does not relay transactions"@)
        } else if !bit(v.services, 3) {
            Err("Node does not support segwit"@)
        } else {
            Ok::<Reaction, Seq<char>>(
                Reaction {
                    sent: if v.version == 70001 {
                        seq![
                            MessageModel::WtxidRelay,
                            MessageModel::SendAddrV2,
                            MessageModel::Verack,
                        ]
                    } else {
                        seq![MessageModel::Verack]
                    },
                    after: HandlerModel { state: BroadcastState::AwaitingVerack, ..h },
                },
            )
        },
{
    lemma_witness_bit(v.services);
}

/// Of two version messages that agree on their version number, on whether the
/// node wants transactions, and on bit 3 of its services, one is answered like
/// the other.
pub proof fn law_on_versions(h: HandlerModel, v: VersionModel, w: VersionModel)
    requires
        v.version == w.version,
        v.relay == w.relay,
        bit(v.services, 3) == bit(w.services, 3),
    ensures
        reaction(h, MessageModel::Version(v)) == reaction(h, MessageModel::Version(w)),
{
    lemma_witness_bit(v.services);
    lemma_witness_bit(w.services);
}

/// After the verack the transaction is announced, and it alone: by the hash of
/// all its bytes where `wtxidrelay` has come, and else by the hash of its bytes
/// without witnesses.
pub proof fn law_on_verack(h: HandlerModel)
    ensures
        reaction(h, MessageModel::Verack) == if h.state != BroadcastState::AwaitingVerack {
            Err("Received verack msg out of order"@)
        } else {
            Ok::<Reaction, Seq<char>>(
                Reaction {
                    sent: seq![
                        MessageModel::Inv(
                            seq![
                                if h.use_wtxid {
                                    InventoryModel::WTx(double_sha256(tx_bytes(h.tx)))
                                } else {
                                    InventoryModel::Transaction(
                                        double_sha256(stripped_bytes(h.tx)),
                                    )
                                },
                            ],
                        ),
                    ],
                    after: HandlerModel { state: BroadcastState::AwaitingGetData, ..h },
                },
            )
        },
{
}

/// Whether two transactions differ at most in the witnesses of their inputs.
pub open spec fn same_but_witnesses(a: TxModel, b: TxModel) -> bool {
    &&& a.version == b.version
    &&& a.lock_time == b.lock_time
    &&& a.output == b.output
    &&& a.input.len() == b.input.len()
    &&& forall|k: int|
        #![trigger a.input[k]]
        #![trigger b.input[k]]
        0 <= k < a.input.len() ==> {
            &&& a.input[k].txid == b.input[k].txid
            &&& a.input[k].vout == b.input[k].vout
            &&& a.input[k].script_sig == b.input[k].script_sig
            &&& a.input[k].sequence == b.input[k].sequence
        }
}

/// The announcement by txid does not depend on the witnesses; nor does what may
/// be asked for then.
pub proof fn law_witnesses(h: HandlerModel, other: TxModel, items: Seq<InventoryModel>)
    requires
        same_but_witnesses(h.tx, other),
        !h.use_wtxid,
    ensures
        ({
            let g = HandlerModel { tx: other, ..h };
            let getdata = MessageModel::GetData(items);
            &&& stripped_bytes(other) == stripped_bytes(h.tx)
            &&& reaction(h, MessageModel::Verack) is Ok <==> reaction(g, MessageModel::Verack) is Ok
            &&& reaction(h, MessageModel::Verack) is Ok ==> reaction(
                g,
                MessageModel::Verack,
            )->Ok_0.sent == reaction(h, MessageModel::Verack)->Ok_0.sent
            &&& reaction(h, getdata) is Ok <==> reaction(g, getdata) is Ok
        }),
{
    assert(h.tx.input.map_values(
        |i: TxInModel| txin_bytes(i),
    ) =~= other.input.map_values(
        |i: TxInModel| txin_bytes(i),
    ));
}

/// `wtxidrelay` makes the transaction go by its wtxid and changes nothing else.
pub proof fn law_on_wtxidrelay(h: HandlerModel)
    ensures
        reaction(h, MessageModel::WtxidRelay) == if h.state == BroadcastState::AwaitingVerack {
            passed_over(HandlerModel { use_wtxid: true, ..h })
        } else {
            Err("Received wtxidrelay msg out of order"@)
        },
{
}

/// `sendaddrv2` is taken between the version message and the verack, and changes
/// nothing.
pub proof fn law_on_sendaddrv2(h: HandlerModel)
    ensures
        reaction(h, MessageModel::SendAddrV2) == if h.state == BroadcastState::AwaitingVerack {
            passed_over(h)
        } else {
            Err("Received sendaddrv2 msg out of order"@)
        },
{
}

/// A getdata that is awaited is answered with the transaction if it holds its
/// wtxid, where `wtxidrelay` has come; and else if it holds its txid, with or
/// without a wish for the witnesses. Any other is refused.
pub proof fn law_on_getdata(h: HandlerModel, items: Seq<InventoryModel>)
    ensures
        ({
            let txid = double_sha256(stripped_bytes(h.tx));
            let wtxid = double_sha256(tx_bytes(h.tx));
            let sent = Ok::<Reaction, Seq<char>>(
                Reaction {
                    sent: seq![MessageModel::Tx(h.tx)],
                    after: HandlerModel { state: BroadcastState::Done, ..h },
                },
            );
            reaction(h, MessageModel::GetData(items)) == if h.state
                != BroadcastState::AwaitingGetData {
                Err("Received getdata msg out of order"@)
            } else if h.use_wtxid {
                if exists|k: int|
                    0 <= k < items.len() && #[trigger] items[k] == InventoryModel::WTx(wtxid) {
                    sent
                } else {
                    Err("Getdata message does not contain our wtxid"@)
                }
            } else {
                if exists|k: int|
                    0 <= k < items.len() && (#[trigger] items[k] == InventoryModel::Transaction(
                        txid,
                    ) || items[k] == InventoryModel::WitnessTransaction(txid)) {
                    sent
                } else {
                    Err("Getdata message does not contain our txid"@)
                }
            }
        }),
{
    let txid = double_sha256(stripped_bytes(h.tx));
    let wtxid = double_sha256(tx_bytes(h.tx));
    assert(items.contains(InventoryModel::WTx(wtxid)) <==> exists|k: int|
        0 <= k < items.len() && #[trigger] items[k] == InventoryModel::WTx(wtxid));
    assert(items.contains(InventoryModel::Transaction(txid)) || items.contains(
        InventoryModel::WitnessTransaction(txid),
    ) <==> exists|k: int|
        0 <= k < items.len() && (#[trigger] items[k] == InventoryModel::Transaction(txid)
            || items[k] == InventoryModel::WitnessTransaction(txid)));
}

/// A ping is answered with its own nonce once the verack has come, and refused
/// before.
pub proof fn law_on_ping(h: HandlerModel, nonce: u64)
    ensures
        reaction(h, MessageModel::Ping(nonce)) == if h.state == BroadcastState::AwaitingGetData
            || h.state == BroadcastState::Done {
            Ok::<Reaction, Seq<char>>(
                Reaction { sent: seq![MessageModel::Pong(nonce)], after: h },
            )
        } else {
            Err("Received ping msg out of order"@)
        },
{
}

/// Any message that was not decoded is passed over once the verack has come,
/// whatever its command and payload are; before, it is refused under its name
/// and that of the state.
pub proof fn law_on_unknown(h: HandlerModel, command: Seq<char>, payload: Seq<u8>)
    ensures
        reaction(h, MessageModel::Unknown { command, payload }) == match h.state {
            BroadcastState::Connected => Err(
                "Received "@ + command + " msg out of order "@ + "Connected"@,
            ),
            BroadcastState::AwaitingVersion => Err(
                "Received "@ + command + " msg out of order "@ + "AwaitingVersion"@,
            ),
            BroadcastState::AwaitingVerack => Err(
                "Received "@ + command + " msg out of order "@ + "AwaitingVerack"@,
            ),
            BroadcastState::AwaitingGetData | BroadcastState::Done => passed_over(h),
        },
{
}

/// The other messages are passed over at any time, whatever they hold.
pub proof fn law_on_others(
    h: HandlerModel,
    items: Seq<InventoryModel>,
    tx: TxModel,
    nonce: u64,
    data: Seq<u8>,
)
    ensures
        reaction(h, MessageModel::Inv(items)) == passed_over(h),
        reaction(h, MessageModel::Tx(tx)) == passed_over(h),
        reaction(h, MessageModel::Pong(nonce)) == passed_over(h),
        reaction(h, MessageModel::Alert(data)) == passed_over(h),
{
}

/// Whether two messages are of one kind.
pub open spec fn same_kind(a: MessageModel, b: MessageModel) -> bool {
    match a {
        MessageModel::Version(_) => b is Version,
        MessageModel::Verack => b is Verack,
        MessageModel::Inv(_) => b is Inv,
        MessageModel::GetData(_) => b is GetData,
        MessageModel::Tx(_) => b is Tx,
        MessageModel::Ping(_) => b is Ping,
        MessageModel::Pong(_) => b is Pong,
        MessageModel::Alert(_) => b is Alert,
        MessageModel::WtxidRelay => b is WtxidRelay,
        MessageModel::SendAddrV2 => b is SendAddrV2,
        MessageModel::Unknown { .. } => b is Unknown,
    }
}

/// Whether a message may come goes by its kind and by the state: of two messages
/// of one kind, other than those that a node answers us with, a handler takes
/// both or neither, and is the same afterwards; and handlers in one state take
/// the same ones of these.
pub proof fn law_kind(h: HandlerModel, g: HandlerModel, a: MessageModel, b: MessageModel)
    requires
        same_kind(a, b),
        a !is Version,
        a !is GetData,
        g.state == h.state,
    ensures
        reaction(h, a) is Ok <==> reaction(h, b) is Ok,
        reaction(h, a) is Ok <==> reaction(g, a) is Ok,
        reaction(h, a) matches Ok(re) ==> re.after == reaction(h, b)->Ok_0.after,
{
}

/// A handler begins with nothing sent and the txid; once our version message is
/// out it awaits the node's, and is otherwise as it was.
pub proof fn law_beginning(magic: Seq<u8>, tx: TxModel)
    ensures
        connected(magic, tx) == (HandlerModel {
            magic,
            use_wtxid: false,
            tx,
            state: BroadcastState::Connected,
        }),
        greeted(magic, tx) == (HandlerModel {
            magic,
            use_wtxid: false,
            tx,
            state: BroadcastState::AwaitingVersion,
        }),
{
}

/// Each message is written by itself, for the same network, in the order in
/// which they are sent; and a list of byte strings is those byte strings.
pub proof fn law_frames(magic: Seq<u8>, messages: Seq<MessageModel>, writes: Seq<Vec<u8>>, k: int)
    ensures
        frames(magic, messages).len() == messages.len(),
        0 <= k < messages.len() ==> frames(magic, messages)[k] == message_bytes(magic, messages[k]),
        chunks(writes).len() == writes.len(),
        0 <= k < writes.len() ==> chunks(writes)[k] == writes[k]@,
{
}

} // verus!
