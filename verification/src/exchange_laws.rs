//! What holds of an exchange over a stream of bytes.

use vstd::prelude::*;

use crate::error::ErrorModel;
use crate::laws::{
    is_tx, law_order, law_prefix, law_sent_once, law_success, law_transcript, lemma_pongs_from,
    may_wait, pongs, session, transcript, welcoming, wtxid_relayed,
};
use crate::message::{message_bytes, InventoryModel, MessageModel, VersionModel};
use crate::message_handler::{
    announced, asks_for_tx, connected, frames, greeted, handshake, reaction, BroadcastState,
    HandlerModel,
};
use crate::message_loop::{finishes, settled, step, ActionModel, LoopModel};
use crate::reader::{first_message, Parsed};
use crate::stream_laws::{as_read, is_message, law_message, law_pieces};
use crate::transaction::TxModel;
use crate::wire::le_at;

verus! {

/// Messages one after the other in a stream.
pub open spec fn stream(magic: Seq<u8>, messages: Seq<MessageModel>) -> Seq<u8> {
    frames(magic, messages).flatten()
}

/// What a reader makes of messages.
pub open spec fn all_as_read(messages: Seq<MessageModel>) -> Seq<MessageModel> {
    messages.map_values(|m: MessageModel| as_read(m))
}

/// What a loop is after `n` rounds in each of which it had something written,
/// and all that was written; nothing, where one of them went otherwise.
pub open spec fn rounds(l: LoopModel, n: nat) -> Option<(LoopModel, Seq<Seq<u8>>)>
    decreases n,
{
    if n == 0 {
        Some((l, Seq::empty()))
    } else {
        match rounds(l, (n - 1) as nat) {
            None => None,
            Some((before, written)) => match step(before).1 {
                Ok(ActionModel::Write(more)) => Some((step(before).0, written + more)),
                _ => None,
            },
        }
    }
}

/// The transaction and the network stay the same throughout a session.
proof fn lemma_session_keeps(h: HandlerModel, received: Seq<MessageModel>)
    ensures
        session(h, received) matches Some(r) ==> r.after.magic == h.magic && r.after.tx == h.tx,
    decreases received.len(),
{
    if session(h, received) is Some && received.len() > 0 {
        lemma_session_keeps(h, received.drop_last());
        law_order(session(h, received.drop_last())->Some_0.after, received.last());
    }
}

/// A round of the loop: the message at the front of the stream is answered.
proof fn lemma_round(l: LoopModel, magic: Seq<u8>, m: MessageModel, rest: Seq<u8>)
    requires
        magic.len() == 4,
        is_message(m),
        l.received == message_bytes(magic, m) + rest,
        !finishes(l),
        reaction(settled(l).handler, as_read(m)) is Ok,
    ensures
        ({
            let h = settled(l).handler;
            let re = reaction(h, as_read(m))->Ok_0;
            step(l) == (
                LoopModel { handler: h, received: rest, next: Some(re.after) },
                Ok::<ActionModel, ErrorModel>(ActionModel::Write(frames(h.magic, re.sent))),
            )
        }),
{
    law_message(magic, m, rest);
    assert(l.received.skip(message_bytes(magic, m).len() as int) =~= rest);
}

/// What is written for messages and then for more of them.
proof fn lemma_frames_concat(magic: Seq<u8>, a: Seq<MessageModel>, b: Seq<MessageModel>)
    ensures
        frames(magic, a + b) == frames(magic, a) + frames(magic, b),
{
    assert(frames(magic, a + b) =~= frames(magic, a) + frames(magic, b));
}

/// An exchange over a stream goes by the messages in it: each message is
/// answered in turn, with what the handler sends in reply to it, and what
/// follows the messages is left in the stream. The last message may end the
/// exchange, none before it.
pub proof fn law_exchange(
    l: LoopModel,
    magic: Seq<u8>,
    messages: Seq<MessageModel>,
    rest: Seq<u8>,
)
    requires
        magic.len() == 4,
        forall|k: int| 0 <= k < messages.len() ==> is_message(#[trigger] messages[k]),
        l.received == stream(magic, messages) + rest,
        !finishes(l),
    ensures
        ({
            let h = settled(l).handler;
            let read = all_as_read(messages);
            &&& session(h, read) is Some
            &&& forall|n: int|
                0 < n < read.len() ==> (#[trigger] session(h, read.take(n)))->Some_0.after.state
                    != BroadcastState::Done
        }) ==> {
            let r = session(settled(l).handler, all_as_read(messages))->Some_0;
            let end = rounds(l, messages.len());
            &&& end is Some
            &&& settled(end->Some_0.0).handler == r.after
            &&& end->Some_0.0.received == rest
            &&& end->Some_0.1 == frames(settled(l).handler.magic, r.sent)
            &&& messages.len() > 0 ==> finishes(end->Some_0.0) == (r.after.state
                == BroadcastState::Done)
        },
    decreases messages.len(),
{
    let h = settled(l).handler;
    let read = all_as_read(messages);
    let n = messages.len() as int;
    if session(h, read) is Some && (forall|n: int|
        0 < n < read.len() ==> (#[trigger] session(h, read.take(n)))->Some_0.after.state
            != BroadcastState::Done) {
        let r = session(h, read)->Some_0;
        if n == 0 {
            assert(stream(magic, messages) + rest =~= rest);
            assert(frames(h.magic, r.sent) =~= Seq::empty());
        } else {
            let m = messages.last();
            let before = messages.drop_last();
            let read_before = all_as_read(before);
            assert(is_message(messages[n - 1]));
            assert forall|k: int| 0 <= k < before.len() implies is_message(#[trigger] before[k]) by {
                assert(before[k] == messages[k]);
            }
            assert(read.drop_last() =~= read_before);
            assert(frames(magic, messages) =~= frames(magic, before).push(
                message_bytes(magic, m),
            ));
            frames(magic, before).lemma_flatten_push(message_bytes(magic, m));
            assert(stream(magic, messages) + rest =~= stream(magic, before) + (message_bytes(
                magic,
                m,
            ) + rest));
            assert forall|k: int| 0 < k < read_before.len() implies (#[trigger] session(
                h,
                read_before.take(k),
            ))->Some_0.after.state != BroadcastState::Done by {
                assert(read.take(k) =~= read_before.take(k));
            }
            law_exchange(l, magic, before, message_bytes(magic, m) + rest);
            lemma_session_keeps(h, read_before);
            let b = session(h, read_before)->Some_0;
            let (l1, written) = rounds(l, (n - 1) as nat)->Some_0;
            assert(read.take(n - 1) =~= read_before);
            assert(!finishes(l1));
            assert(read.last() == as_read(m));
            lemma_round(l1, magic, m, rest);
            lemma_frames_concat(h.magic, b.sent, reaction(b.after, as_read(m))->Ok_0.sent);
        }
    }
}

/// A message that the handler refuses ends the exchange with the reason why:
/// nothing is written in reply, and the handler stays what it is.
pub proof fn law_refusal(l: LoopModel, magic: Seq<u8>, m: MessageModel, rest: Seq<u8>)
    requires
        magic.len() == 4,
        is_message(m),
        !finishes(l),
    ensures
        reaction(settled(l).handler, as_read(m)) matches Err(text) ==> step(
            LoopModel { received: message_bytes(magic, m) + rest, ..l },
        ) == (
            LoopModel { received: rest, ..settled(l) },
            Err::<ActionModel, ErrorModel>(ErrorModel::Protocol(text)),
        ),
{
    let s = message_bytes(magic, m) + rest;
    law_message(magic, m, rest);
    assert(s.skip(message_bytes(magic, m).len() as int) =~= rest);
}

/// What a peer sends that keeps to the protocol.
pub open spec fn script(
    early: Seq<MessageModel>,
    v: VersionModel,
    before: Seq<MessageModel>,
    waiting: Seq<MessageModel>,
    items: Seq<InventoryModel>,
) -> Seq<MessageModel> {
    early + seq![MessageModel::Version(v)] + before + seq![MessageModel::Verack] + waiting + seq![
        MessageModel::GetData(items),
    ]
}

/// The transaction is delivered to a peer that keeps to the protocol: whatever
/// else may come in between, an exchange over its stream writes the answer to
/// its version message, the announcement, the pongs and the transaction, in
/// this order, and is then finished, with what follows left in the stream.
pub proof fn law_delivery(
    magic: Seq<u8>,
    tx: TxModel,
    peer: Seq<u8>,
    early: Seq<MessageModel>,
    v: VersionModel,
    before: Seq<MessageModel>,
    waiting: Seq<MessageModel>,
    items: Seq<InventoryModel>,
    rest: Seq<u8>,
)
    requires
        peer.len() == 4,
        forall|k: int|
            0 <= k < script(early, v, before, waiting, items).len() ==> is_message(
                #[trigger] script(early, v, before, waiting, items)[k],
            ),
        may_wait(BroadcastState::AwaitingVersion, all_as_read(early)),
        welcoming(MessageModel::Version(v)),
        may_wait(BroadcastState::AwaitingVerack, all_as_read(before)),
        may_wait(BroadcastState::AwaitingGetData, all_as_read(waiting)),
    ensures
        ({
            let messages = script(early, v, before, waiting, items);
            let h = HandlerModel {
                use_wtxid: wtxid_relayed(all_as_read(before), 0, before.len() as int),
                ..greeted(magic, tx)
            };
            let l = opened(magic, tx, stream(peer, messages) + rest);
            asks_for_tx(h, items) ==> {
                let (end, written) = rounds(l, messages.len())->Some_0;
                &&& rounds(l, messages.len()) is Some
                &&& written == frames(
                    magic,
                    handshake(v.version) + seq![MessageModel::Inv(seq![announced(h)])] + pongs(
                        all_as_read(waiting),
                    ) + seq![MessageModel::Tx(tx)],
                )
                &&& step(end).1 == Ok::<ActionModel, ErrorModel>(ActionModel::Finished)
                &&& end.received == rest
            }
        }),
{
    let messages = script(early, v, before, waiting, items);
    let h0 = greeted(magic, tx);
    let h = HandlerModel {
        use_wtxid: wtxid_relayed(all_as_read(before), 0, before.len() as int),
        ..h0
    };
    let l = opened(magic, tx, stream(peer, messages) + rest);
    if asks_for_tx(h, items) {
        let read = all_as_read(messages);
        assert(read =~= script(
            all_as_read(early),
            v,
            all_as_read(before),
            all_as_read(waiting),
            items,
        ));
        law_success(
            magic,
            tx,
            all_as_read(early),
            v,
            all_as_read(before),
            all_as_read(waiting),
            items,
        );
        let n = read.len() as int;
        let almost = session(h0, read.drop_last())->Some_0;
        assert(almost.after.state == BroadcastState::AwaitingGetData) by {
            assert(read.last() is GetData);
        }
        assert forall|k: int| 0 < k < n implies (#[trigger] session(
            h0,
            read.take(k),
        ))->Some_0.after.state != BroadcastState::Done by {
            law_prefix(h0, read.drop_last(), k);
            assert(read.drop_last().take(k) =~= read.take(k));
        }
        law_exchange(l, peer, messages, rest);
    }
}

/// What is left of a stream behind its first `n` messages.
pub open spec fn behind(s: Seq<u8>, n: nat) -> Seq<u8>
    decreases n,
{
    if n == 0 {
        s
    } else {
        let left = behind(s, (n - 1) as nat);
        match first_message(left) {
            Parsed::Complete { length, .. } => left.skip(length as int),
            _ => left,
        }
    }
}

/// The first `n` messages in a stream, or those that there are.
pub open spec fn messages_of(s: Seq<u8>, n: nat) -> Seq<MessageModel>
    decreases n,
{
    if n == 0 {
        Seq::empty()
    } else {
        let before = messages_of(s, (n - 1) as nat);
        match first_message(behind(s, (n - 1) as nat)) {
            Parsed::Complete { message, .. } => before.push(message),
            _ => before,
        }
    }
}

/// The exchange that offers `tx` to a peer whose stream is `bytes`, once our
/// version message has been written.
pub open spec fn opened(magic: Seq<u8>, tx: TxModel, bytes: Seq<u8>) -> LoopModel {
    LoopModel {
        handler: connected(magic, tx),
        received: bytes,
        next: Some(greeted(magic, tx)),
    }
}

/// The rounds of a loop go by the messages in its stream, and none of them
/// follows the one that ends the exchange.
proof fn lemma_rounds(l: LoopModel, n: nat)
    requires
        l.next is Some,
        rounds(l, n) is Some,
    ensures
        ({
            let h = settled(l).handler;
            let received = messages_of(l.received, n);
            let (end, written) = rounds(l, n)->Some_0;
            let r = session(h, received)->Some_0;
            &&& received.len() == n
            &&& session(h, received) is Some
            &&& written == frames(h.magic, r.sent)
            &&& end.next == Some(r.after)
            &&& end.received == behind(l.received, n)
            &&& n > 0 ==> received.drop_last() == messages_of(l.received, (n - 1) as nat)
                && session(h, received.drop_last())->Some_0.after.state != BroadcastState::Done
        }),
    decreases n,
{
    let h = settled(l).handler;
    if n == 0 {
        assert(frames(h.magic, Seq::<MessageModel>::empty()) =~= Seq::empty());
    } else {
        lemma_rounds(l, (n - 1) as nat);
        let before = messages_of(l.received, (n - 1) as nat);
        lemma_session_keeps(h, before);
        let b = session(h, before)->Some_0;
        let m = first_message(behind(l.received, (n - 1) as nat))->Complete_message;
        let received = messages_of(l.received, n);
        assert(received == before.push(m));
        assert(received.drop_last() =~= before);
        lemma_frames_concat(h.magic, b.sent, reaction(b.after, m)->Ok_0.sent);
    }
}

/// Whatever bytes a peer sends, an exchange goes by the messages in them: all
/// that it writes is what a handler sends that takes them one after the other,
/// and it ends if and only if that handler is done. So it keeps to the order of
/// [`law_transcript`], and has sent the transaction, and that once, if and only
/// if it is done.
///
/// [`law_transcript`]: crate::laws::law_transcript
pub proof fn law_conduct(magic: Seq<u8>, tx: TxModel, bytes: Seq<u8>, n: nat)
    ensures
        rounds(opened(magic, tx, bytes), n) matches Some((end, written)) ==> {
            let received = messages_of(bytes, n);
            let r = session(greeted(magic, tx), received)->Some_0;
            &&& received.len() == n
            &&& session(greeted(magic, tx), received) is Some
            &&& written == frames(magic, r.sent)
            &&& settled(end).handler == r.after
            &&& end.received == behind(bytes, n)
            &&& finishes(end) <==> r.after.state == BroadcastState::Done
            &&& exists|i: int, j: int, k: int|
                #[trigger] transcript(r.after, received, r.sent, i, j, k)
            &&& r.sent.filter(|m: MessageModel| is_tx(m)) == if finishes(end) {
                seq![MessageModel::Tx(tx)]
            } else {
                Seq::empty()
            }
        },
{
    if rounds(opened(magic, tx, bytes), n) is Some {
        lemma_rounds(opened(magic, tx, bytes), n);
        law_transcript(magic, tx, messages_of(bytes, n));
        law_sent_once(magic, tx, messages_of(bytes, n));
    }
}

/// Everything that is sent in an exchange that ended well: our version message
/// `own`, the answer to the version message at `i`, one announcement of the
/// transaction, by wtxid if and only if `wtxidrelay` came before the verack at
/// `j`, a pong for each ping that came before the getdata, which is the last
/// message of all, and last the transaction.
pub open spec fn complete(
    magic: Seq<u8>,
    tx: TxModel,
    own: VersionModel,
    received: Seq<MessageModel>,
    sent: Seq<MessageModel>,
    i: int,
    j: int,
) -> bool {
    let h = HandlerModel { use_wtxid: wtxid_relayed(received, i, j), ..greeted(magic, tx) };
    &&& 0 <= i < j < received.len() - 1
    &&& welcoming(received[i])
    &&& received[j] is Verack
    &&& received.last() matches MessageModel::GetData(items) && asks_for_tx(h, items)
    &&& sent == seq![MessageModel::Version(own)] + handshake(received[i]->Version_0.version)
        + seq![MessageModel::Inv(seq![announced(h)])] + pongs(received.drop_last()) + seq![
        MessageModel::Tx(tx),
    ]
}

/// Whatever bytes a peer sends, an exchange that is finished has written our
/// version message, then `wtxidrelay` and `sendaddrv2` if and only if the peer
/// has our protocol version, then the verack, one announcement that names only
/// the transaction, one pong for each ping that came before the getdata, and
/// the transaction last, all for the given network.
#[verifier::rlimit(30)]
pub proof fn law_finished(
    magic: Seq<u8>,
    tx: TxModel,
    own: VersionModel,
    bytes: Seq<u8>,
    n: nat,
)
    ensures
        rounds(opened(magic, tx, bytes), n) matches Some((end, written)) ==> finishes(end) ==> {
            &&& written.len() > 0
            &&& written.last() == message_bytes(magic, MessageModel::Tx(tx))
            &&& exists|sent: Seq<MessageModel>, i: int, j: int|
                #[trigger] complete(magic, tx, own, messages_of(bytes, n), sent, i, j) && frames(
                    magic,
                    seq![MessageModel::Version(own)],
                ) + written == frames(magic, sent)
        },
{
    let l = opened(magic, tx, bytes);
    let h0 = greeted(magic, tx);
    if rounds(l, n) is Some && finishes(rounds(l, n)->Some_0.0) {
        lemma_rounds(l, n);
        let received = messages_of(bytes, n);
        let r = session(h0, received)->Some_0;
        assert(n > 0);
        let before = received.drop_last();
        let b = session(h0, before)->Some_0;
        let m = received.last();
        assert(m is GetData && b.after.state == BroadcastState::AwaitingGetData);
        law_transcript(magic, tx, before);
        let (i, j, k) = choose|i: int, j: int, k: int|
            #[trigger] transcript(b.after, before, b.sent, i, j, k);
        lemma_pongs_from(magic, tx, before, j);
        assert(wtxid_relayed(received, i, j) == wtxid_relayed(before, i, j)) by {
            assert(forall|x: int| 0 <= x < n - 1 ==> received[x] == before[x]);
        }
        let h = HandlerModel { use_wtxid: wtxid_relayed(received, i, j), ..h0 };
        assert(announced(h) == announced(b.after));
        assert(r.sent == b.sent + seq![MessageModel::Tx(tx)]);
        let own_first = seq![MessageModel::Version(own)];
        let sent = own_first + r.sent;
        assert(sent =~= own_first + handshake(received[i]->Version_0.version) + seq![
            MessageModel::Inv(seq![announced(h)]),
        ] + pongs(before) + seq![MessageModel::Tx(tx)]);
        lemma_frames_concat(magic, own_first, r.sent);
        assert(complete(magic, tx, own, received, sent, i, j));
    }
}

/// A loop `l` that more bytes have come to.
pub open spec fn with_more(l: LoopModel, more: Seq<u8>) -> LoopModel {
    LoopModel { received: l.received + more, ..l }
}

/// Bytes that come early change nothing: what a loop does without reading
/// further it does all the same, and the bytes are there afterwards. To be told
/// to read costs nothing of what has come.
pub proof fn law_arrival(l: LoopModel, more: Seq<u8>)
    ensures
        step(l).1 != Ok::<ActionModel, ErrorModel>(ActionModel::Read) ==> step(with_more(l, more))
            == (with_more(step(l).0, more), step(l).1),
        step(l).1 == Ok::<ActionModel, ErrorModel>(ActionModel::Read) ==> step(l).0 == settled(l),
{
    law_pieces(l.received, more);
    match first_message(l.received) {
        Parsed::Incomplete => {},
        Parsed::Invalid { length, .. } => {
            assert((l.received + more).skip(length as int) =~= l.received.skip(length as int)
                + more);
        },
        Parsed::Complete { length, .. } => {
            assert((l.received + more).skip(length as int) =~= l.received.skip(length as int)
                + more);
        },
    }
}

/// What a loop is after `n` polls that told it to write, which was done, or to
/// read, which gave the next of `pieces`; how many pieces were read; and all
/// that was written. Nothing, where a poll went otherwise or a piece was wanting.
pub open spec fn polls(l: LoopModel, pieces: Seq<Seq<u8>>, n: nat) -> Option<
    (LoopModel, nat, Seq<Seq<u8>>),
>
    decreases n,
{
    if n == 0 {
        Some((l, 0, Seq::empty()))
    } else {
        match polls(l, pieces, (n - 1) as nat) {
            None => None,
            Some((before, used, written)) => match step(before).1 {
                Ok(ActionModel::Write(more)) => Some((step(before).0, used, written + more)),
                Ok(ActionModel::Read) => if used < pieces.len() {
                    Some((with_more(step(before).0, pieces[used as int]), used + 1, written))
                } else {
                    None
                },
                _ => None,
            },
        }
    }
}

/// What a loop does goes by what it is once the reply has been written, and by
/// whether that was the last one.
proof fn lemma_step(a: LoopModel, b: LoopModel)
    requires
        settled(a) == settled(b),
        finishes(a) == finishes(b),
    ensures
        step(a) == step(b),
{
}

/// It does not matter how the stream comes in: an exchange that gets it in
/// pieces, each when it wants to read, writes what it would write if all of it
/// had been there from the beginning, and ends when it would end then.
#[verifier::rlimit(40)]
pub proof fn law_cut(l: LoopModel, pieces: Seq<Seq<u8>>, n: nat)
    ensures
        polls(l, pieces, n) matches Some((end, used, written)) ==> {
            let whole = rounds(with_more(l, pieces.flatten()), (n - used) as nat);
            let left = with_more(end, pieces.skip(used as int).flatten());
            &&& used <= n
            &&& used <= pieces.len()
            &&& whole is Some
            &&& whole->Some_0.1 == written
            &&& settled(whole->Some_0.0) == settled(left)
            &&& finishes(whole->Some_0.0) == finishes(end)
        },
    decreases n,
{
    if let Some((end, used, written)) = polls(l, pieces, n) {
        if n == 0 {
            assert(pieces.skip(0) =~= pieces);
        } else {
            law_cut(l, pieces, (n - 1) as nat);
            let (before, used_before, _) = polls(l, pieces, (n - 1) as nat)->Some_0;
            let rest = pieces.skip(used_before as int);
            let all = with_more(l, pieces.flatten());
            let whole = rounds(all, (n - 1 - used_before) as nat)->Some_0.0;
            lemma_step(whole, with_more(before, rest.flatten()));
            law_arrival(before, rest.flatten());
            if step(before).1 == Ok::<ActionModel, ErrorModel>(ActionModel::Read) {
                assert(n - used == n - 1 - used_before);
                assert(rest.first() == pieces[used_before as int]);
                assert(rest.drop_first() =~= pieces.skip(used as int));
                assert(before.received + rest.flatten() =~= end.received + pieces.skip(
                    used as int,
                ).flatten());
            } else {
                assert(n - used - 1 == n - 1 - used_before);
            }
        }
    }
}

/// Whether two streams differ at most in the bytes that tell the network of
/// each message.
pub open spec fn alike(s: Seq<u8>, t: Seq<u8>) -> bool
    decreases s.len(),
{
    s.len() == t.len() && match first_message(s) {
        Parsed::Complete { length, .. } => {
            &&& 4 <= length <= s.len()
            &&& s.subrange(4, length as int) == t.subrange(4, length as int)
            &&& alike(s.skip(length as int), t.skip(length as int))
        },
        _ => s.skip(4) == t.skip(4),
    }
}

/// What is the same is alike.
proof fn lemma_alike_same(s: Seq<u8>)
    ensures
        alike(s, s),
    decreases s.len(),
{
    law_pieces(s, Seq::empty());
    if let Parsed::Complete { length, .. } = first_message(s) {
        lemma_alike_same(s.skip(length as int));
    }
}

/// Streams that are alike begin with the same message, but for its network.
proof fn lemma_alike_first(s: Seq<u8>, t: Seq<u8>)
    requires
        alike(s, t),
    ensures
        match first_message(s) {
            Parsed::Complete { message, length, .. } => first_message(t) == (Parsed::Complete {
                magic: t.take(4),
                message,
                length,
            }) && alike(s.skip(length as int), t.skip(length as int)),
            Parsed::Invalid { length, .. } => first_message(t) == first_message(s) && alike(
                s.skip(length as int),
                t.skip(length as int),
            ),
            Parsed::Incomplete => first_message(t) is Incomplete,
        },
{
    law_pieces(s, Seq::empty());
    let n = match first_message(s) {
        Parsed::Complete { length, .. } => length as int,
        _ => s.len() as int,
    };
    if s.len() >= 4 {
        assert(s.subrange(4, n) =~= t.subrange(4, n)) by {
            if first_message(s) !is Complete {
                assert(s.subrange(4, n) =~= s.skip(4));
                assert(t.subrange(4, n) =~= t.skip(4));
            }
        }
        assert forall|a: int, b: int| 4 <= a <= b <= n implies #[trigger] s.subrange(a, b)
            == t.subrange(a, b) by {
            assert(s.subrange(a, b) =~= s.subrange(4, n).subrange(a - 4, b - 4));
            assert(t.subrange(a, b) =~= t.subrange(4, n).subrange(a - 4, b - 4));
        }
        if s.len() >= 16 {
            assert(s.subrange(4, 16) == t.subrange(4, 16));
            if s.len() >= 24 && n >= 24 {
                assert(s.subrange(16, 20) == t.subrange(16, 20));
                assert(s.subrange(20, 24) == t.subrange(20, 24));
                let length = 24 + le_at(s, 16, 4);
                if length <= n {
                    assert(s.subrange(24, length as int) == t.subrange(24, length as int));
                }
            }
        }
    }
    if let Parsed::Invalid { length, .. } = first_message(s) {
        assert(s.skip(length as int) =~= s.skip(4).skip(length - 4));
        assert(t.skip(length as int) =~= t.skip(4).skip(length - 4));
        lemma_alike_same(s.skip(length as int));
    }
}

/// It does not matter which network the messages of a peer are for: loops that
/// differ only in that take the next step in the same way, to the same result
/// or error, and differ only in that afterwards.
pub proof fn law_magic(l: LoopModel, s: Seq<u8>, t: Seq<u8>)
    requires
        alike(s, t),
    ensures
        ({
            let a = step(LoopModel { received: s, ..l });
            let b = step(LoopModel { received: t, ..l });
            &&& b.1 == a.1
            &&& b.0 == (LoopModel { received: b.0.received, ..a.0 })
            &&& alike(a.0.received, b.0.received)
        }),
{
    lemma_alike_first(s, t);
}

/// Nor does it matter for a whole exchange: the same is written, the handler
/// comes to be the same, and what is left differs only in that.
pub proof fn law_magic_rounds(l: LoopModel, s: Seq<u8>, t: Seq<u8>, n: nat)
    requires
        alike(s, t),
    ensures
        ({
            let a = rounds(LoopModel { received: s, ..l }, n);
            let b = rounds(LoopModel { received: t, ..l }, n);
            &&& a is Some <==> b is Some
            &&& a is Some ==> {
                let ((x, written), (y, written_too)) = (a->Some_0, b->Some_0);
                &&& written == written_too
                &&& y == (LoopModel { received: y.received, ..x })
                &&& alike(x.received, y.received)
                &&& step(x).1 == step(y).1
            }
        }),
    decreases n,
{
    let (ls, lt) = (LoopModel { received: s, ..l }, LoopModel { received: t, ..l });
    if n > 0 {
        law_magic_rounds(l, s, t, (n - 1) as nat);
        if let (Some((x, _)), Some((y, _))) = (
            rounds(ls, (n - 1) as nat),
            rounds(lt, (n - 1) as nat),
        ) {
            law_magic(x, x.received, y.received);
        }
    }
    if let (Some((x, _)), Some((y, _))) = (rounds(ls, n), rounds(lt, n)) {
        law_magic(x, x.received, y.received);
    }
}

/// A stream of messages for whichever networks, message by message, is like the
/// same messages for one network.
pub proof fn law_magic_stream(
    magic: Seq<u8>,
    magics: Seq<Seq<u8>>,
    messages: Seq<MessageModel>,
    rest: Seq<u8>,
)
    requires
        magic.len() == 4,
        magics.len() == messages.len(),
        forall|k: int| 0 <= k < magics.len() ==> (#[trigger] magics[k]).len() == 4,
        forall|k: int| 0 <= k < messages.len() ==> is_message(#[trigger] messages[k]),
    ensures
        alike(stream(magic, messages) + rest, mixed_stream(magics, messages) + rest),
    decreases messages.len(),
{
    if messages.len() == 0 {
        lemma_alike_same(stream(magic, messages) + rest);
        assert(stream(magic, messages) + rest =~= rest);
        assert(mixed_stream(magics, messages) + rest =~= rest);
    } else {
        let (m, later) = (messages[0], messages.drop_first());
        let (s1, t1) = (message_bytes(magic, m), message_bytes(magics[0], m));
        let s2 = stream(magic, later) + rest;
        let t2 = mixed_stream(magics.drop_first(), later) + rest;
        assert forall|k: int| 0 <= k < later.len() implies is_message(#[trigger] later[k]) by {
            assert(later[k] == messages[k + 1]);
        }
        law_magic_stream(magic, magics.drop_first(), later, rest);
        assert(frames(magic, messages).drop_first() =~= frames(magic, later));
        assert(frames(magic, messages).first() == s1);
        assert(stream(magic, messages) + rest =~= s1 + s2);
        let mixed = mixed_frames(magics, messages);
        assert(mixed.drop_first() =~= mixed_frames(magics.drop_first(), later));
        assert(mixed.first() == t1);
        assert(mixed_stream(magics, messages) + rest =~= t1 + t2);
        law_message(magic, m, s2);
        law_pieces(s1 + s2, Seq::empty());
        let n = s1.len() as int;
        assert(s1.subrange(4, n) =~= t1.subrange(4, n));
        assert((s1 + s2).subrange(4, n) =~= s1.subrange(4, n));
        assert((t1 + t2).subrange(4, n) =~= t1.subrange(4, n));
        assert((s1 + s2).skip(n) =~= s2);
        assert((t1 + t2).skip(n) =~= t2);
    }
}

/// Messages as they go over the network, each for a network of its own.
pub open spec fn mixed_frames(magics: Seq<Seq<u8>>, messages: Seq<MessageModel>) -> Seq<Seq<u8>> {
    Seq::new(messages.len(), |k: int| message_bytes(magics[k], messages[k]))
}

/// Messages one after the other in a stream, each for a network of its own.
pub open spec fn mixed_stream(magics: Seq<Seq<u8>>, messages: Seq<MessageModel>) -> Seq<u8> {
    mixed_frames(magics, messages).flatten()
}

/// What a loop does next: it ends if the reply that has just been written left
/// the handler done, and only then; else it goes by what its stream begins with
/// and by how the handler takes a message. What is to be written is each message
/// of the reply, in order, for the network of the handler.
pub proof fn law_step(l: LoopModel)
    ensures
        ({
            let h = match l.next {
                Some(h) => h,
                None => l.handler,
            };
            let kept = LoopModel { handler: h, received: l.received, next: None };
            step(l) == if l.next is Some && h.state == BroadcastState::Done {
                (kept, Ok::<ActionModel, ErrorModel>(ActionModel::Finished))
            } else {
                match first_message(l.received) {
                    Parsed::Incomplete => (kept, Ok(ActionModel::Read)),
                    Parsed::Invalid { error, length } => (
                        LoopModel { received: l.received.skip(length as int), ..kept },
                        Err(ErrorModel::Bitcoin(error)),
                    ),
                    Parsed::Complete { message, length, .. } => match reaction(h, message) {
                        Err(text) => (
                            LoopModel { received: l.received.skip(length as int), ..kept },
                            Err(ErrorModel::Protocol(text)),
                        ),
                        Ok(re) => (
                            LoopModel {
                                handler: h,
                                received: l.received.skip(length as int),
                                next: Some(re.after),
                            },
                            Ok(
                                ActionModel::Write(
                                    Seq::new(
                                        re.sent.len(),
                                        |k: int| message_bytes(h.magic, re.sent[k]),
                                    ),
                                ),
                            ),
                        ),
                    },
                }
            }
        }),
{
    let h = settled(l).handler;
    if let Parsed::Complete { message, .. } = first_message(l.received) {
        if let Ok(re) = reaction(h, message) {
            assert(frames(h.magic, re.sent) =~= Seq::new(
                re.sent.len(),
                |k: int| message_bytes(h.magic, re.sent[k]),
            ));
        }
    }
}

} // verus!
