//! The exchange with a peer, as a loop that is told of what came in and says
//! what to do next.

use vstd::prelude::*;

use crate::error::{DecodeError, Error, ErrorModel};
use crate::message_handler::{
    chunks, connected, frames, greeted, reaction, BroadcastState, HandlerModel, MessageHandler,
    Progress,
};
use crate::message::{version_bytes, MessageModel, VersionMessage};
use crate::reader::{first_message, MessageReader, Parsed};
use crate::transaction::{tx_bytes, Transaction};

verus! {

/// What to do next.
#[derive(Debug, Clone, PartialEq, Eq)]
pub enum Action {
    /// Read from the peer, and hand on what came.
    Read,
    /// Write this to the peer, in this order.
    Write(Vec<Vec<u8>>),
    /// Nothing: the transaction has been sent.
    Finished,
}

/// What an [`Action`] is.
pub enum ActionModel {
    Read,
    Write(Seq<Seq<u8>>),
    Finished,
}

impl View for Action {
    type V = ActionModel;

    open spec fn view(&self) -> ActionModel {
        match *self {
            Action::Read => ActionModel::Read,
            Action::Write(writes) => ActionModel::Write(chunks(writes@)),
            Action::Finished => ActionModel::Finished,
        }
    }
}

/// The exchange with a peer once our version message has been sent.
pub struct MessageLoop {
    handler: MessageHandler,
    reader: MessageReader,
    pending: Option<Progress>,
}

/// What a [`MessageLoop`] is: the handler, the bytes that have come and are not
/// handled yet, and what the handler will be once the reply that is being
/// written has been written.
pub struct LoopModel {
    pub handler: HandlerModel,
    pub received: Seq<u8>,
    pub next: Option<HandlerModel>,
}

impl View for MessageLoop {
    type V = LoopModel;

    closed spec fn view(&self) -> LoopModel {
        LoopModel {
            handler: self.handler@,
            received: self.reader@,
            next: match self.pending {
                Some(then_on) => Some(then_on.of(self.handler@)),
                None => None,
            },
        }
    }
}

/// The loop once what was to be written has been written.
pub open spec fn settled(l: LoopModel) -> LoopModel {
    match l.next {
        Some(h) => LoopModel { handler: h, next: None, ..l },
        None => l,
    }
}

/// Whether the reply that is being written is the last one.
pub open spec fn finishes(l: LoopModel) -> bool {
    l.next matches Some(h) && h.state == BroadcastState::Done
}

/// What a loop `l` does next, and what it is then. It ends as soon as a message
/// has been answered that leaves nothing to do; else it takes the next message.
pub open spec fn step(l: LoopModel) -> (LoopModel, Result<ActionModel, ErrorModel>) {
    let now = settled(l);
    if finishes(l) {
        (now, Ok(ActionModel::Finished))
    } else {
        match first_message(now.received) {
            Parsed::Incomplete => (now, Ok(ActionModel::Read)),
            Parsed::Invalid { error, length } => (
                LoopModel { received: now.received.skip(length as int), ..now },
                Err(ErrorModel::Bitcoin(error)),
            ),
            Parsed::Complete { message, length, .. } => {
                let rest = LoopModel { received: now.received.skip(length as int), ..now };
                match reaction(now.handler, message) {
                    Err(text) => (rest, Err(ErrorModel::Protocol(text))),
                    Ok(re) => (
                        LoopModel { next: Some(re.after), ..rest },
                        Ok(ActionModel::Write(frames(now.handler.magic, re.sent))),
                    ),
                }
            },
        }
    }
}

impl MessageLoop {
    /// The exchange that `handler` decides on.
    pub fn new(handler: MessageHandler) -> (r: Self)
        ensures
            r@ == (LoopModel { handler: handler@, received: Seq::empty(), next: None }),
    {
        MessageLoop { handler, reader: MessageReader::new(), pending: None }
    }

    /// Opens an exchange that offers `tx`: gives the exchange and what to write
    /// before anything else, which is our version message.
    pub fn open(magic: [u8; 4], tx: Transaction, msg: VersionMessage) -> (r: (
        Self,
        Vec<Vec<u8>>,
    ))
        requires
            tx_bytes(tx@).len() <= u32::MAX,
            version_bytes(msg@).len() <= u32::MAX,
        ensures
            r.0@ == (LoopModel {
                handler: connected(magic@, tx@),
                received: Seq::empty(),
                next: Some(greeted(magic@, tx@)),
            }),
            chunks(r.1@) == frames(magic@, seq![MessageModel::Version(msg@)]),
    {
        let handler = MessageHandler::new(magic, tx);
        let reply = handler.send_version_msg(msg);
        let mut exchange = MessageLoop::new(handler);
        exchange.pending = Some(reply.then_on);
        (exchange, reply.writes)
    }

    /// Takes bytes that have been read from the peer. A read that gives none
    /// means that the peer has closed the connection, inside a message or before
    /// one.
    pub fn receive(&mut self, bytes: &[u8]) -> (r: Result<(), Error>)
        ensures
            r is Ok <==> bytes@.len() > 0,
            r matches Err(e) ==> e@ == ErrorModel::Bitcoin(DecodeError::UnexpectedEof),
            final(self)@ == (LoopModel { received: old(self)@.received + bytes@, ..old(self)@ }),
    {
        self.reader.push(bytes);
        if bytes.len() == 0 {
            Err(Error::Bitcoin(DecodeError::UnexpectedEof))
        } else {
            Ok(())
        }
    }

    /// Says what to do next. To call this again is to say that what was to be
    /// written has been written.
    pub fn poll(&mut self) -> (r: Result<Action, Error>)
        ensures
            final(self)@ == step(old(self)@).0,
            match r {
                Ok(action) => step(old(self)@).1 == Ok::<ActionModel, ErrorModel>(action@),
                Err(e) => step(old(self)@).1 == Err::<ActionModel, ErrorModel>(e@),
            },
    {
        if let Some(then_on) = self.pending.take() {
            self.handler.written(then_on);
            if self.handler.state() == BroadcastState::Done {
                return Ok(Action::Finished);
            }
        }
        match self.reader.next() {
            Err(e) => Err(Error::Bitcoin(e)),
            Ok(None) => Ok(Action::Read),
            Ok(Some(message)) => {
                match self.handler.handle_message(message.payload) {
                    Err(e) => Err(e),
                    Ok(reply) => {
                        self.pending = Some(reply.then_on);
                        Ok(Action::Write(reply.writes))
                    },
                }
            },
        }
    }
}

/// An action is its kind and what is to be written.
pub proof fn law_action_kinds(writes: Vec<Vec<u8>>, k: int)
    ensures
        Action::Read@ == ActionModel::Read,
        Action::Finished@ == ActionModel::Finished,
        Action::Write(writes)@ matches ActionModel::Write(w) && w.len() == writes@.len() && (0 <= k
            < writes@.len() ==> w[k] == writes@[k]@),
{
}

} // verus!
