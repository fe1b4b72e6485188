//! Cutting the bytes that a peer sends into messages.

use vstd::prelude::*;
use vstd::slice::{slice_subrange, slice_to_vec};

use crate::decode::{command_in, decode_command, decode_message, message_in};
use crate::error::DecodeError;
use crate::message::{checksum_of, MessageModel, RawNetworkMessage};
use crate::outside::hash_twice;
use crate::wire::{le_at, read_u32};

verus! {

/// The most bytes that a message may take, its header included.
pub const MAX_MSG_SIZE: usize = 5_000_000;

/// What the bytes that have come so far begin with.
pub enum Parsed {
    /// The beginning of a message.
    Incomplete,
    /// Something that is no message, and the number of bytes that were looked
    /// at to find out.
    Invalid { error: DecodeError, length: nat },
    /// A message, with the network it is for and the number of its bytes.
    Complete { magic: Seq<u8>, message: MessageModel, length: nat },
}

/// The four bytes of `s` as an array.
pub open spec fn array4(s: Seq<u8>) -> [u8; 4] {
    [s[0], s[1], s[2], s[3]]
}

/// What `s` begins with. A command that cannot be one is found as soon as it is
/// there, a message that is too long once its header is there, since it would
/// not end where it may at the latest, and anything else once the payload is
/// there.
pub open spec fn first_message(s: Seq<u8>) -> Parsed {
    if s.len() < 16 {
        Parsed::Incomplete
    } else {
        match command_in(s.subrange(4, 16)) {
            Err(error) => Parsed::Invalid { error, length: 16 },
            Ok(command) => if s.len() < 24 {
                Parsed::Incomplete
            } else if 24 + le_at(s, 16, 4) > MAX_MSG_SIZE {
                Parsed::Invalid { error: DecodeError::UnexpectedEof, length: 24 }
            } else if s.len() < 24 + le_at(s, 16, 4) {
                Parsed::Incomplete
            } else {
                let length = 24 + le_at(s, 16, 4);
                let payload = s.subrange(24, length as int);
                let checksum = s.subrange(20, 24);
                if checksum_of(payload) != checksum {
                    Parsed::Invalid {
                        error: DecodeError::InvalidChecksum {
                            expected: array4(checksum_of(payload)),
                            actual: array4(checksum),
                        },
                        length,
                    }
                } else {
                    match message_in(command, payload) {
                        Err(error) => Parsed::Invalid { error, length },
                        Ok(message) => Parsed::Complete { magic: s.take(4), message, length },
                    }
                }
            },
        }
    }
}

/// Decodes the message that `data` begins with, and says how many bytes it
/// takes; gives nothing where bytes of it are still to come. An error comes with
/// the number of bytes that were looked at too.
pub fn decode_first(data: &[u8]) -> (r: Result<
    Option<(RawNetworkMessage, usize)>,
    (DecodeError, usize),
>)
    ensures
        match r {
            Ok(None) => first_message(data@) is Incomplete,
            Ok(Some(p)) => first_message(data@) == (Parsed::Complete {
                magic: p.0.magic@,
                message: p.0.payload@,
                length: p.1 as nat,
            }) && p.1 <= data@.len(),
            Err(p) => first_message(data@) == (Parsed::Invalid {
                error: p.0,
                length: p.1 as nat,
            }) && p.1 <= data@.len(),
        },
{
    if data.len() < 16 {
        return Ok(None);
    }
    let command = match decode_command(slice_subrange(data, 4, 16)) {
        Err(e) => return Err((e, 16)),
        Ok(command) => command,
    };
    if data.len() < 24 {
        return Ok(None);
    }
    let size: usize = read_u32(data, 16) as usize;
    if size > MAX_MSG_SIZE - 24 {
        return Err((DecodeError::UnexpectedEof, 24));
    }
    if data.len() - 24 < size {
        return Ok(None);
    }
    let payload = slice_subrange(data, 24, 24 + size);
    let hash: [u8; 32] = hash_twice(payload);
    let expected: [u8; 4] = [hash[0], hash[1], hash[2], hash[3]];
    let actual: [u8; 4] = [data[20], data[21], data[22], data[23]];
    let ghost checksum = data@.subrange(20, 24);
    assert(expected == array4(checksum_of(payload@)));
    assert(actual == array4(checksum));
    if expected[0] != actual[0] || expected[1] != actual[1] || expected[2] != actual[2]
        || expected[3] != actual[3] {
        assert(checksum_of(payload@) != checksum);
        return Err((DecodeError::InvalidChecksum { expected, actual }, 24 + size));
    }
    assert(checksum_of(payload@) =~= checksum);
    let magic: [u8; 4] = [data[0], data[1], data[2], data[3]];
    assert(magic@ =~= data@.take(4));
    match decode_message(command, slice_to_vec(payload)) {
        Err(e) => Err((e, 24 + size)),
        Ok(message) => Ok(Some((RawNetworkMessage { magic, payload: message }, 24 + size))),
    }
}

/// Gathers the bytes that a peer sends and gives them back message by message.
pub struct MessageReader {
    buffer: Vec<u8>,
}

impl View for MessageReader {
    type V = Seq<u8>;

    closed spec fn view(&self) -> Seq<u8> {
        self.buffer@
    }
}

impl MessageReader {
    /// A reader that no bytes have come to.
    pub fn new() -> (r: Self)
        ensures
            r@ == Seq::<u8>::empty(),
    {
        MessageReader { buffer: Vec::new() }
    }

    /// Takes the next bytes.
    pub fn push(&mut self, bytes: &[u8])
        ensures
            final(self)@ == old(self)@ + bytes@,
    {
        self.buffer.extend_from_slice(bytes);
        assert(self@ =~= old(self)@ + bytes@);
    }

    /// Takes the next message out; gives nothing where bytes of it are still
    /// to come. What turns out to be no message is taken out as well, as far as
    /// it was looked at.
    pub fn next(&mut self) -> (r: Result<Option<RawNetworkMessage>, DecodeError>)
        ensures
            match r {
                Ok(None) => first_message(old(self)@) is Incomplete && final(self)@ == old(self)@,
                Ok(Some(m)) => first_message(old(self)@) matches Parsed::Complete {
                    magic,
                    message,
                    length,
                } && m.magic@ == magic && m.payload@ == message && final(self)@ == old(self)@.skip(
                    length as int,
                ),
                Err(e) => first_message(old(self)@) matches Parsed::Invalid { error, length } && e
                    == error && final(self)@ == old(self)@.skip(length as int),
            },
    {
        match decode_first(self.buffer.as_slice()) {
            Err(p) => {
                self.buffer = self.buffer.split_off(p.1);
                assert(self@ =~= old(self)@.skip(p.1 as int));
                Err(p.0)
            },
            Ok(None) => Ok(None),
            Ok(Some(p)) => {
                self.buffer = self.buffer.split_off(p.1);
                assert(self@ =~= old(self)@.skip(p.1 as int));
                Ok(Some(p.0))
            },
        }
    }
}

} // verus!
