//! What holds of a whole exchange, whatever the peer sends.

use vstd::prelude::*;

use crate::answers::{bit, lemma_witness_bit};
use crate::message::{InventoryModel, MessageModel, VersionModel};
use crate::message_handler::{
    advance, announced, asks_for_tx, greeted, handshake, objection, reaction, replies, txid, wtxid,
    BroadcastState, HandlerModel, Reaction,
};
use crate::transaction::TxModel;

verus! {

/// How a handler `h` takes messages one after the other: everything that it
/// sends, and what it is in the end; nothing, where it refuses one of them.
pub open spec fn session(h: HandlerModel, received: Seq<MessageModel>) -> Option<Reaction>
    decreases received.len(),
{
    if received.len() == 0 {
        Some(Reaction { sent: Seq::empty(), after: h })
    } else {
        match session(h, received.drop_last()) {
            None => None,
            Some(before) => match reaction(before.after, received.last()) {
                Err(_) => None,
                Ok(re) => Some(Reaction { sent: before.sent + re.sent, after: re.after }),
            },
        }
    }
}

/// The answers to the pings among `received`.
pub open spec fn pongs(received: Seq<MessageModel>) -> Seq<MessageModel> {
    received.filter_map(
        |m: MessageModel|
            match m {
                MessageModel::Ping(nonce) => Some(MessageModel::Pong(nonce)),
                _ => None,
            },
    )
}

/// Whether the message is the version message of a node that takes
/// transactions, with witnesses too, which bit 3 of its services says.
pub open spec fn welcoming(m: MessageModel) -> bool {
    m matches MessageModel::Version(v) && v.relay && bit(v.services, 3)
}

/// Whether `wtxidrelay` is among the messages from `from` up to `to`.
pub open spec fn wtxid_relayed(received: Seq<MessageModel>, from: int, to: int) -> bool {
    exists|n: int| from <= n < to && #[trigger] received[n] is WtxidRelay
}

/// What a handler has sent that has taken `received` and is now `h`, where the
/// peer's version message is the one at `i`, its verack the one at `j`, and its
/// getdata the one at `k`, as far as the exchange has come.
pub open spec fn transcript(
    h: HandlerModel,
    received: Seq<MessageModel>,
    sent: Seq<MessageModel>,
    i: int,
    j: int,
    k: int,
) -> bool {
    let n = received.len() as int;
    let hello = handshake(received[i]->Version_0.version);
    let inv = seq![MessageModel::Inv(seq![announced(h)])];
    match h.state {
        BroadcastState::Connected => false,
        BroadcastState::AwaitingVersion => {
            &&& sent == Seq::<MessageModel>::empty()
            &&& !h.use_wtxid
        },
        BroadcastState::AwaitingVerack => {
            &&& 0 <= i < n
            &&& welcoming(received[i])
            &&& h.use_wtxid == wtxid_relayed(received, i, n)
            &&& sent == hello
        },
        BroadcastState::AwaitingGetData => {
            &&& 0 <= i < j < n
            &&& welcoming(received[i])
            &&& received[j] is Verack
            &&& h.use_wtxid == wtxid_relayed(received, i, j)
            &&& sent == hello + inv + pongs(received.subrange(j, n))
        },
        BroadcastState::Done => {
            &&& 0 <= i < j < k < n
            &&& welcoming(received[i])
            &&& received[j] is Verack
            &&& h.use_wtxid == wtxid_relayed(received, i, j)
            &&& received[k] matches MessageModel::GetData(items) && asks_for_tx(h, items)
            &&& sent == hello + inv + pongs(received.subrange(j, k)) + seq![MessageModel::Tx(h.tx)]
                + pongs(received.subrange(k, n))
        },
    }
}

/// Pongs to one more message.
proof fn lemma_pongs(received: Seq<MessageModel>, a: int)
    requires
        0 <= a < received.len(),
    ensures
        pongs(received.subrange(a, received.len() as int)) == pongs(
            received.drop_last().subrange(a, received.len() - 1),
        ) + match received.last() {
            MessageModel::Ping(nonce) => seq![MessageModel::Pong(nonce)],
            _ => Seq::empty(),
        },
{
    let n = received.len() as int;
    let s = received.subrange(a, n);
    assert(s.drop_last() =~= received.drop_last().subrange(a, n - 1));
    assert(pongs(s) =~= pongs(s.drop_last()) + match received.last() {
        MessageModel::Ping(nonce) => seq![MessageModel::Pong(nonce)],
        _ => Seq::empty(),
    });
}

/// What is sent follows from what was received. Whatever the peer sends, a
/// handler that took all of it has sent, in this order: the answer to a version
/// message of a node that takes transactions; after the verack the
/// announcement, by wtxid if and only if `wtxidrelay` came in between; after a
/// getdata that asks for what was announced the transaction; and a pong for
/// each ping that came after the verack. Beyond that it has sent nothing, and
/// it offers the same transaction throughout.
#[verifier::rlimit(30)]
pub proof fn law_transcript(magic: Seq<u8>, tx: TxModel, received: Seq<MessageModel>)
    ensures
        session(greeted(magic, tx), received) matches Some(r) ==> {
            &&& r.after.magic == magic
            &&& r.after.tx == tx
            &&& exists|i: int, j: int, k: int|
                #[trigger] transcript(r.after, received, r.sent, i, j, k)
        },
    decreases received.len(),
{
    let h0 = greeted(magic, tx);
    if let Some(r) = session(h0, received) {
        if received.len() == 0 {
            assert(transcript(r.after, received, r.sent, 0, 0, 0));
        } else {
            let old_received = received.drop_last();
            let m = received.last();
            let n = received.len() as int;
            law_transcript(magic, tx, old_received);
            let b = session(h0, old_received)->Some_0;
            let (i, j, k) = choose|i: int, j: int, k: int|
                #[trigger] transcript(b.after, old_received, b.sent, i, j, k);
            let re = reaction(b.after, m)->Ok_0;
            assert(forall|x: int| 0 <= x < n - 1 ==> received[x] == old_received[x]);
            match b.after.state {
                BroadcastState::Connected => {},
                BroadcastState::AwaitingVersion => {
                    if m is Version {
                        lemma_witness_bit(m->Version_0.services);
                        assert(received[n - 1] is Version);
                        assert(r.sent =~= handshake(m->Version_0.version));
                        assert(transcript(r.after, received, r.sent, n - 1, j, k));
                    } else {
                        assert(r.sent =~= b.sent);
                        assert(transcript(r.after, received, r.sent, i, j, k));
                    }
                },
                BroadcastState::AwaitingVerack => {
                    if m is Verack {
                        assert(received[n - 1] is Verack);
                        assert(wtxid_relayed(received, i, n - 1) == wtxid_relayed(
                            old_received,
                            i,
                            n - 1,
                        ));
                        lemma_pongs(received, n - 1);
                        assert(received.drop_last().subrange(n - 1, n - 1) =~= Seq::empty());
                        assert(pongs(received.subrange(n - 1, n)) =~= Seq::empty());
                        assert(r.sent =~= handshake(received[i]->Version_0.version) + seq![
                            MessageModel::Inv(seq![announced(r.after)]),
                        ] + pongs(received.subrange(n - 1, n)));
                        assert(transcript(r.after, received, r.sent, i, n - 1, k));
                    } else {
                        if m is WtxidRelay {
                            assert(received[n - 1] is WtxidRelay);
                        } else {
                            assert(wtxid_relayed(received, i, n) == wtxid_relayed(
                                old_received,
                                i,
                                n - 1,
                            ));
                        }
                        assert(r.sent =~= b.sent);
                        assert(transcript(r.after, received, r.sent, i, j, k));
                    }
                },
                BroadcastState::AwaitingGetData => {
                    assert(wtxid_relayed(received, i, j) == wtxid_relayed(old_received, i, j));
                    if m is GetData {
                        assert(received[n - 1] is GetData);
                        lemma_pongs(received, n - 1);
                        assert(received.drop_last().subrange(n - 1, n - 1) =~= Seq::empty());
                        assert(pongs(received.subrange(n - 1, n)) =~= Seq::empty());
                        assert(received.subrange(j, n - 1) =~= old_received.subrange(j, n - 1));
                        assert(r.sent =~= b.sent + seq![MessageModel::Tx(r.after.tx)] + pongs(
                            received.subrange(n - 1, n),
                        ));
                        assert(transcript(r.after, received, r.sent, i, j, n - 1));
                    } else {
                        lemma_pongs(received, j);
                        assert(r.sent =~= handshake(received[i]->Version_0.version) + seq![
                            MessageModel::Inv(seq![announced(r.after)]),
                        ] + pongs(received.subrange(j, n)));
                        assert(transcript(r.after, received, r.sent, i, j, k));
                    }
                },
                BroadcastState::Done => {
                    assert(wtxid_relayed(received, i, j) == wtxid_relayed(old_received, i, j));
                    assert(received.subrange(j, k) =~= old_received.subrange(j, k));
                    lemma_pongs(received, k);
                    assert(r.sent =~= handshake(received[i]->Version_0.version) + seq![
                        MessageModel::Inv(seq![announced(r.after)]),
                    ] + pongs(received.subrange(j, k)) + seq![MessageModel::Tx(r.after.tx)] + pongs(
                        received.subrange(k, n),
                    ));
                    assert(transcript(r.after, received, r.sent, i, j, k));
                },
            }
        }
    }
}

/// The number of a state, in the order in which they follow each other.
pub open spec fn rank(state: BroadcastState) -> int {
    match state {
        BroadcastState::Connected => 0,
        BroadcastState::AwaitingVersion => 1,
        BroadcastState::AwaitingVerack => 2,
        BroadcastState::AwaitingGetData => 3,
        BroadcastState::Done => 4,
    }
}

/// A message moves the exchange on by one state or leaves it where it is. The
/// transaction and the network never change, nor, once the announcement is out,
/// does what was announced; and a handler that is done stays as it is.
pub proof fn law_order(h: HandlerModel, m: MessageModel)
    ensures
        reaction(h, m) matches Ok(re) ==> {
            &&& rank(h.state) <= rank(re.after.state) <= rank(h.state) + 1
            &&& re.after.tx == h.tx
            &&& re.after.magic == h.magic
            &&& h.use_wtxid ==> re.after.use_wtxid
            &&& rank(h.state) >= 3 ==> announced(re.after) == announced(h)
            &&& h.state == BroadcastState::Done ==> re.after == h
        },
{
}

/// What is announced is what may be asked for: a getdata with the item of the
/// announcement is answered with the transaction, which ends the exchange; and
/// so is one that names the txid and wants the witnesses, where the txid was
/// announced. Any other getdata is refused.
pub proof fn law_announced(h: HandlerModel, items: Seq<InventoryModel>)
    ensures
        reaction(h, MessageModel::Verack) matches Ok(re) ==> {
            let asked = items.contains(announced(re.after)) || !h.use_wtxid && items.contains(
                InventoryModel::WitnessTransaction(txid(h.tx)),
            );
            let answer = reaction(re.after, MessageModel::GetData(items));
            &&& re.sent == seq![MessageModel::Inv(seq![announced(re.after)])]
            &&& asked ==> answer == Ok::<Reaction, Seq<char>>(
                Reaction {
                    sent: seq![MessageModel::Tx(h.tx)],
                    after: HandlerModel { state: BroadcastState::Done, ..h },
                },
            )
            &&& !asked ==> answer is Err
        },
{
}

/// What a getdata is answered goes by which items it holds: their order and
/// repeats do not matter, and further items do not turn an accepted one into a
/// refused one, nor change the answer to it. That holds of what is asked for in
/// every state.
pub proof fn law_items(
    h: HandlerModel,
    items: Seq<InventoryModel>,
    same: Seq<InventoryModel>,
    more: Seq<InventoryModel>,
)
    requires
        forall|i: InventoryModel| items.contains(i) <==> #[trigger] same.contains(i),
        forall|i: InventoryModel| items.contains(i) ==> #[trigger] more.contains(i),
    ensures
        asks_for_tx(h, same) == asks_for_tx(h, items),
        asks_for_tx(h, items) ==> asks_for_tx(h, more),
        objection(h, MessageModel::GetData(same)) == objection(h, MessageModel::GetData(items)),
        reaction(h, MessageModel::GetData(same)) == reaction(h, MessageModel::GetData(items)),
        reaction(h, MessageModel::GetData(items)) is Ok ==> reaction(
            h,
            MessageModel::GetData(more),
        ) == reaction(h, MessageModel::GetData(items)),
{
    let witness = InventoryModel::WitnessTransaction(txid(h.tx));
    assert(items.contains(announced(h)) <==> same.contains(announced(h)));
    assert(items.contains(witness) <==> same.contains(witness));
    assert(items.contains(announced(h)) ==> more.contains(announced(h)));
    assert(items.contains(witness) ==> more.contains(witness));
}

/// A `wtxidrelay` that comes in order is never refused and answered with
/// nothing. In every state it leaves the state as it is and makes the
/// transaction go by its wtxid, in the announcement and in what may be asked
/// for; and a second one changes nothing further.
pub proof fn law_wtxid_relay(h: HandlerModel, items: Seq<InventoryModel>)
    ensures
        ({
            let m = MessageModel::WtxidRelay;
            let after = advance(h, m);
            &&& reaction(h, m) is Ok <==> h.state == BroadcastState::AwaitingVerack
            &&& reaction(h, m) is Ok ==> reaction(h, m) == Ok::<Reaction, Seq<char>>(
                Reaction { sent: Seq::empty(), after },
            ) && reaction(after, m) == reaction(h, m)
            &&& replies(h, m) == Seq::<MessageModel>::empty()
            &&& after.state == h.state
            &&& announced(after) == InventoryModel::WTx(wtxid(h.tx))
            &&& asks_for_tx(after, items) == items.contains(InventoryModel::WTx(wtxid(h.tx)))
            &&& advance(after, m) == after
        }),
{
}

/// Whether the message is the transaction.
pub open spec fn is_tx(m: MessageModel) -> bool {
    m is Tx
}

/// The transaction is sent exactly once in an exchange that is done, and not at
/// all in one that is not.
pub proof fn law_sent_once(magic: Seq<u8>, tx: TxModel, received: Seq<MessageModel>)
    ensures
        session(greeted(magic, tx), received) matches Some(r) ==> r.sent.filter(
            |m: MessageModel| is_tx(m),
        ) == if r.after.state == BroadcastState::Done {
            seq![MessageModel::Tx(tx)]
        } else {
            Seq::empty()
        },
    decreases received.len(),
{
    let h0 = greeted(magic, tx);
    let p = |m: MessageModel| is_tx(m);
    if received.len() == 0 {
        lemma_filter_none(Seq::empty(), p);
    } else if session(h0, received) is Some {
        let m = received.last();
        law_sent_once(magic, tx, received.drop_last());
        law_transcript(magic, tx, received.drop_last());
        let b = session(h0, received.drop_last())->Some_0;
        lemma_answer(b.after, m);
        Seq::filter_distributes_over_add(b.sent, reaction(b.after, m)->Ok_0.sent, p);
        assert(session(h0, received)->Some_0.sent.filter(p) =~= b.sent.filter(p) + reaction(
            b.after,
            m,
        )->Ok_0.sent.filter(p));
    }
}

/// To take messages and then more of them is to take all of them.
proof fn lemma_session_concat(h: HandlerModel, a: Seq<MessageModel>, b: Seq<MessageModel>)
    ensures
        session(h, a + b) == match session(h, a) {
            None => None,
            Some(r) => match session(r.after, b) {
                None => None,
                Some(q) => Some(Reaction { sent: r.sent + q.sent, after: q.after }),
            },
        },
    decreases b.len(),
{
    if b.len() == 0 {
        assert(a + b =~= a);
        if let Some(r) = session(h, a) {
            assert(r.sent + Seq::<MessageModel>::empty() =~= r.sent);
        }
    } else {
        lemma_session_concat(h, a, b.drop_last());
        assert((a + b).drop_last() =~= a + b.drop_last());
        assert((a + b).last() == b.last());
        if let Some(r) = session(h, a) {
            if let Some(q) = session(r.after, b.drop_last()) {
                if let Ok(re) = reaction(q.after, b.last()) {
                    assert(r.sent + q.sent + re.sent =~= r.sent + (q.sent + re.sent));
                }
            }
        }
    }
}

/// Whether a message of this kind may come while the exchange stays in `state`:
/// those that are of no interest at any time, `wtxidrelay` and `sendaddrv2`
/// before the verack, pings and undecoded messages after it.
pub open spec fn may_come(state: BroadcastState, m: MessageModel) -> bool {
    match m {
        MessageModel::Inv(_)
        | MessageModel::Tx(_)
        | MessageModel::Pong(_)
        | MessageModel::Alert(_) => true,
        MessageModel::WtxidRelay | MessageModel::SendAddrV2 => state
            == BroadcastState::AwaitingVerack,
        MessageModel::Ping(_)
        | MessageModel::Unknown { .. } => state == BroadcastState::AwaitingGetData || state
            == BroadcastState::Done,
        MessageModel::Version(_) | MessageModel::Verack | MessageModel::GetData(_) => false,
    }
}

/// Whether all messages may come while the exchange stays in `state`.
pub open spec fn may_wait(state: BroadcastState, received: Seq<MessageModel>) -> bool {
    forall|n: int| 0 <= n < received.len() ==> may_come(state, #[trigger] received[n])
}

/// What is sent while the exchange stays in its state: pongs.
proof fn lemma_waiting(h: HandlerModel, received: Seq<MessageModel>)
    requires
        may_wait(h.state, received),
    ensures
        session(h, received) == Some(
            Reaction {
                sent: pongs(received),
                after: HandlerModel {
                    use_wtxid: h.use_wtxid || wtxid_relayed(received, 0, received.len() as int),
                    ..h
                },
            },
        ),
    decreases received.len(),
{
    let n = received.len() as int;
    if n == 0 {
        assert(pongs(received) =~= Seq::empty());
    } else {
        let before = received.drop_last();
        assert forall|x: int| 0 <= x < before.len() implies may_come(
            h.state,
            #[trigger] before[x],
        ) by {
            assert(before[x] == received[x]);
        }
        lemma_waiting(h, before);
        assert(received[n - 1] == received.last());
        lemma_pongs(received, 0);
        assert(received.subrange(0, n) =~= received);
        assert(before.subrange(0, n - 1) =~= before);
        if received.last() is WtxidRelay {
            assert(received[n - 1] is WtxidRelay);
        } else {
            assert(wtxid_relayed(received, 0, n) == wtxid_relayed(before, 0, n - 1));
        }
        assert(pongs(received) =~= session(h, received)->Some_0.sent);
    }
}

/// A peer that keeps to the protocol gets the transaction: from a node that
/// takes transactions the version message, the verack, and a getdata that asks
/// for what was announced; and in between whatever may come then.
pub proof fn law_success(
    magic: Seq<u8>,
    tx: TxModel,
    early: Seq<MessageModel>,
    v: VersionModel,
    before: Seq<MessageModel>,
    waiting: Seq<MessageModel>,
    items: Seq<InventoryModel>,
)
    requires
        may_wait(BroadcastState::AwaitingVersion, early),
        welcoming(MessageModel::Version(v)),
        may_wait(BroadcastState::AwaitingVerack, before),
        may_wait(BroadcastState::AwaitingGetData, waiting),
    ensures
        ({
            let h = HandlerModel {
                use_wtxid: wtxid_relayed(before, 0, before.len() as int),
                ..greeted(magic, tx)
            };
            asks_for_tx(h, items) ==> session(
                greeted(magic, tx),
                early + seq![MessageModel::Version(v)] + before + seq![MessageModel::Verack]
                    + waiting + seq![MessageModel::GetData(items)],
            ) == Some(
                Reaction {
                    sent: handshake(v.version) + seq![MessageModel::Inv(seq![announced(h)])]
                        + pongs(waiting) + seq![MessageModel::Tx(tx)],
                    after: HandlerModel { state: BroadcastState::Done, ..h },
                },
            )
        }),
{
    let h0 = greeted(magic, tx);
    let h = HandlerModel { use_wtxid: wtxid_relayed(before, 0, before.len() as int), ..h0 };
    lemma_witness_bit(v.services);
    if asks_for_tx(h, items) {
        let h1 = HandlerModel { state: BroadcastState::AwaitingVerack, ..h0 };
        let h2 = HandlerModel { state: BroadcastState::AwaitingVerack, ..h };
        let h3 = HandlerModel { state: BroadcastState::AwaitingGetData, ..h };
        let s1 = early + seq![MessageModel::Version(v)];
        let s2 = s1 + before;
        let s3 = s2 + seq![MessageModel::Verack];
        let s4 = s3 + waiting;
        let s5 = s4 + seq![MessageModel::GetData(items)];
        lemma_waiting(h0, early);
        lemma_quiet(BroadcastState::AwaitingVersion, early);
        assert(s1.drop_last() =~= early);
        assert(session(h0, s1)->Some_0.sent =~= handshake(v.version));
        assert(session(h0, s1)->Some_0.after == h1);
        lemma_session_concat(h0, s1, before);
        lemma_waiting(h1, before);
        lemma_quiet(BroadcastState::AwaitingVerack, before);
        assert(session(h0, s2)->Some_0.sent =~= handshake(v.version));
        assert(session(h0, s2)->Some_0.after == h2);
        assert(s3.drop_last() =~= s2);
        assert(announced(h2) == announced(h));
        assert(session(h0, s3)->Some_0.after == h3);
        lemma_session_concat(h0, s3, waiting);
        lemma_waiting(h3, waiting);
        assert(!wtxid_relayed(waiting, 0, waiting.len() as int));
        assert(session(h0, s4)->Some_0.after == h3);
        assert(s5.drop_last() =~= s4);
        assert(s5 =~= early + seq![MessageModel::Version(v)] + before + seq![
            MessageModel::Verack,
        ] + waiting + seq![MessageModel::GetData(items)]);
        assert(session(h0, s5)->Some_0.sent =~= handshake(v.version) + seq![
            MessageModel::Inv(seq![announced(h)]),
        ] + pongs(waiting) + seq![MessageModel::Tx(tx)]);
    }
}

/// Before the verack there are no pings to answer, and before the version
/// message no `wtxidrelay`.
proof fn lemma_quiet(state: BroadcastState, received: Seq<MessageModel>)
    requires
        may_wait(state, received),
        rank(state) <= 2,
    ensures
        pongs(received) == Seq::<MessageModel>::empty(),
        rank(state) <= 1 ==> !wtxid_relayed(received, 0, received.len() as int),
    decreases received.len(),
{
    let n = received.len() as int;
    if n > 0 {
        let before = received.drop_last();
        assert forall|x: int| 0 <= x < before.len() implies may_come(
            state,
            #[trigger] before[x],
        ) by {
            assert(before[x] == received[x]);
        }
        lemma_quiet(state, before);
        assert(received[n - 1] == received.last());
        lemma_pongs(received, 0);
        assert(received.subrange(0, n) =~= received);
        assert(before.subrange(0, n - 1) =~= before);
        assert(pongs(received) =~= Seq::empty());
    }
}

/// Part of a session is a session, and has not come further than the whole.
pub proof fn law_prefix(h: HandlerModel, received: Seq<MessageModel>, n: int)
    requires
        0 <= n <= received.len(),
    ensures
        session(h, received) matches Some(r) ==> (session(h, received.take(n)) matches Some(b)
            && rank(h.state) <= rank(b.after.state) <= rank(r.after.state)),
    decreases received.len(),
{
    if session(h, received) is Some {
        if n == received.len() {
            assert(received.take(n) =~= received);
            if n > 0 {
                law_prefix(h, received.drop_last(), n - 1);
                assert(received.drop_last().take(n - 1) =~= received.drop_last());
                law_order(session(h, received.drop_last())->Some_0.after, received.last());
            }
        } else {
            law_prefix(h, received.drop_last(), n);
            assert(received.drop_last().take(n) =~= received.take(n));
            law_order(session(h, received.drop_last())->Some_0.after, received.last());
        }
    }
}

/// Pongs to messages and to more of them.
proof fn lemma_pongs_concat(a: Seq<MessageModel>, b: Seq<MessageModel>)
    ensures
        pongs(a + b) == pongs(a) + pongs(b),
    decreases b.len(),
{
    if b.len() == 0 {
        assert(a + b =~= a);
        assert(pongs(a) + pongs(b) =~= pongs(a));
    } else {
        lemma_pongs_concat(a, b.drop_last());
        assert((a + b).drop_last() =~= a + b.drop_last());
        assert(pongs(a + b) =~= pongs(a) + pongs(b));
    }
}

/// No ping is taken before the verack.
proof fn lemma_no_pings(magic: Seq<u8>, tx: TxModel, received: Seq<MessageModel>)
    ensures
        session(greeted(magic, tx), received) matches Some(r) ==> rank(r.after.state) <= 2
            ==> pongs(received) == Seq::<MessageModel>::empty(),
    decreases received.len(),
{
    if session(greeted(magic, tx), received) is Some && received.len() > 0 {
        let before = received.drop_last();
        lemma_no_pings(magic, tx, before);
        law_order(session(greeted(magic, tx), before)->Some_0.after, received.last());
    }
}

/// All pings come after the verack.
pub proof fn lemma_pongs_from(magic: Seq<u8>, tx: TxModel, received: Seq<MessageModel>, j: int)
    requires
        0 <= j < received.len(),
        received[j] is Verack,
    ensures
        session(greeted(magic, tx), received) is Some ==> pongs(received) == pongs(
            received.subrange(j, received.len() as int),
        ),
{
    let h0 = greeted(magic, tx);
    if session(h0, received) is Some {
        let (early, later) = (received.take(j), received.subrange(j, received.len() as int));
        law_prefix(h0, received, j + 1);
        assert(received.take(j + 1).drop_last() =~= early);
        assert(received.take(j + 1).last() == received[j]);
        lemma_no_pings(magic, tx, early);
        lemma_pongs_concat(early, later);
        assert(early + later =~= received);
        assert(pongs(received) =~= pongs(later));
    }
}

/// How a handler `h` takes messages one after the other, and goes on after
/// those that it refuses: everything that it sends, and what it is in the end.
pub open spec fn course(h: HandlerModel, received: Seq<MessageModel>) -> Reaction
    decreases received.len(),
{
    if received.len() == 0 {
        Reaction { sent: Seq::empty(), after: h }
    } else {
        let before = course(h, received.drop_last());
        match reaction(before.after, received.last()) {
            Err(_) => before,
            Ok(re) => Reaction { sent: before.sent + re.sent, after: re.after },
        }
    }
}

/// Whether the message is an announcement.
pub open spec fn is_inv(m: MessageModel) -> bool {
    m is Inv
}

/// A list with nothing of the kind that is looked for.
proof fn lemma_filter_none(s: Seq<MessageModel>, p: spec_fn(MessageModel) -> bool)
    requires
        forall|k: int| 0 <= k < s.len() ==> !p(#[trigger] s[k]),
    ensures
        s.filter(p) == Seq::<MessageModel>::empty(),
    decreases s.len(),
{
    reveal(Seq::filter);
    if s.len() > 0 {
        assert(!p(s[s.len() - 1]));
        lemma_filter_none(s.drop_last(), p);
    }
}

/// A list of one message that is looked for.
proof fn lemma_filter_one(m: MessageModel, p: spec_fn(MessageModel) -> bool)
    requires
        p(m),
    ensures
        seq![m].filter(p) == seq![m],
{
    lemma_filter_none(Seq::empty(), p);
    reveal(Seq::filter);
    assert(seq![m].drop_last() =~= Seq::empty());
}

/// What an answer holds of announcements and of the transaction.
proof fn lemma_answer(h: HandlerModel, m: MessageModel)
    requires
        reaction(h, m) is Ok,
    ensures
        ({
            let re = reaction(h, m)->Ok_0;
            &&& re.sent.filter(|m: MessageModel| is_tx(m)) == if m is GetData {
                seq![MessageModel::Tx(h.tx)]
            } else {
                Seq::empty()
            }
            &&& re.sent.filter(|m: MessageModel| is_inv(m)) == if m is Verack {
                seq![MessageModel::Inv(seq![announced(h)])]
            } else {
                Seq::empty()
            }
        }),
{
    let sent = reaction(h, m)->Ok_0.sent;
    let (tx, inv) = (|m: MessageModel| is_tx(m), |m: MessageModel| is_inv(m));
    match m {
        MessageModel::GetData(_) => {
            lemma_filter_one(MessageModel::Tx(h.tx), tx);
            lemma_filter_none(sent, inv);
        },
        MessageModel::Verack => {
            lemma_filter_none(sent, tx);
            lemma_filter_one(MessageModel::Inv(seq![announced(h)]), inv);
        },
        _ => {
            lemma_filter_none(sent, tx);
            lemma_filter_none(sent, inv);
        },
    }
}

/// Whatever messages come, refused ones among them, and in whatever state the
/// handler begins: the state never moves back; the transaction, the network,
/// and what was announced never change; one announcement is sent if the
/// exchange came past the verack meanwhile, and else none; and the transaction
/// is sent, once, if the exchange became done meanwhile, and else not at all.
pub proof fn law_course(h: HandlerModel, received: Seq<MessageModel>)
    ensures
        ({
            let r = course(h, received);
            &&& rank(h.state) <= rank(r.after.state)
            &&& r.after.tx == h.tx
            &&& r.after.magic == h.magic
            &&& rank(h.state) >= 3 ==> announced(r.after) == announced(h)
            &&& r.sent.filter(|m: MessageModel| is_inv(m)) == if rank(h.state) < 3 <= rank(
                r.after.state,
            ) {
                seq![MessageModel::Inv(seq![announced(r.after)])]
            } else {
                Seq::empty()
            }
            &&& r.sent.filter(|m: MessageModel| is_tx(m)) == if rank(h.state) < 4 == rank(
                r.after.state,
            ) {
                seq![MessageModel::Tx(h.tx)]
            } else {
                Seq::empty()
            }
        }),
    decreases received.len(),
{
    let (tx, inv) = (|m: MessageModel| is_tx(m), |m: MessageModel| is_inv(m));
    if received.len() == 0 {
        lemma_filter_none(Seq::empty(), tx);
        lemma_filter_none(Seq::empty(), inv);
    } else {
        law_course(h, received.drop_last());
        let b = course(h, received.drop_last());
        lemma_course_step(b.after, received.last());
        if let Ok(re) = reaction(b.after, received.last()) {
            lemma_tally(b.sent, re.sent, tx);
            lemma_tally(b.sent, re.sent, inv);
        }
    }
}

/// What is found in messages and in more of them, where one of both has none.
proof fn lemma_tally(
    a: Seq<MessageModel>,
    b: Seq<MessageModel>,
    p: spec_fn(MessageModel) -> bool,
)
    ensures
        a.filter(p).len() == 0 ==> (a + b).filter(p) == b.filter(p),
        b.filter(p).len() == 0 ==> (a + b).filter(p) == a.filter(p),
{
    Seq::filter_distributes_over_add(a, b, p);
    if a.filter(p).len() == 0 {
        assert(a.filter(p) + b.filter(p) =~= b.filter(p));
    }
    if b.filter(p).len() == 0 {
        assert(a.filter(p) + b.filter(p) =~= a.filter(p));
    }
}

/// What one message changes, and what is sent for it.
proof fn lemma_course_step(h: HandlerModel, m: MessageModel)
    ensures
        reaction(h, m) matches Ok(re) ==> {
            &&& rank(h.state) <= rank(re.after.state)
            &&& re.after.tx == h.tx
            &&& re.after.magic == h.magic
            &&& rank(h.state) >= 3 ==> announced(re.after) == announced(h)
            &&& re.sent.filter(|m: MessageModel| is_inv(m)) == if rank(h.state) < 3 <= rank(
                re.after.state,
            ) {
                seq![MessageModel::Inv(seq![announced(re.after)])]
            } else {
                Seq::empty()
            }
            &&& re.sent.filter(|m: MessageModel| is_tx(m)) == if rank(h.state) < 4 == rank(
                re.after.state,
            ) {
                seq![MessageModel::Tx(h.tx)]
            } else {
                Seq::empty()
            }
        },
{
    if reaction(h, m) is Ok {
        law_order(h, m);
        lemma_answer(h, m);
    }
}

/// Messages that come later do not move the state back, nor take back what was
/// sent; and where none is refused, the course is the session.
pub proof fn law_course_prefix(h: HandlerModel, received: Seq<MessageModel>, n: int)
    requires
        0 <= n <= received.len(),
    ensures
        rank(course(h, received.take(n)).after.state) <= rank(course(h, received).after.state),
        course(h, received.take(n)).sent.is_prefix_of(course(h, received).sent),
        session(h, received) matches Some(r) ==> course(h, received) == r,
    decreases received.len(),
{
    if received.len() > 0 {
        let before = received.drop_last();
        let last = received.last();
        if n < received.len() {
            law_course_prefix(h, before, n);
            assert(before.take(n) =~= received.take(n));
        } else {
            law_course_prefix(h, before, n - 1);
            assert(received.take(n) =~= received);
        }
        law_order(course(h, before).after, last);
    } else {
        assert(received.take(n) =~= received);
    }
}

} // verus!
