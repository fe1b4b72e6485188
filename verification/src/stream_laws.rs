//! What holds of messages in a stream of bytes.

use vstd::prelude::*;

use crate::decode::{command_in, message_in};
use crate::error::DecodeError;
use crate::message::{
    checksum_of, command_bytes, command_of, frame, inv_type, inventory_bytes, message_bytes,
    payload_of, version_bytes, InventoryModel, MessageModel, VersionModel,
};
use crate::outside::double_sha256;
use crate::reader::{array4, first_message, Parsed, MAX_MSG_SIZE};
use crate::round_trip::{
    is_command, is_inventory, is_version, law_command, law_inventories, law_nonce, law_var_bytes,
    law_version, lemma_command_bytes, lemma_pieces, lemma_version_parts,
};
use crate::transaction::{tx_bytes, TxModel};
use crate::wire::{le_at, le_bytes, lemma_le_bytes, lemma_pow256};

verus! {

/// The commands of the messages that are decoded.
pub open spec fn is_decoded(command: Seq<char>) -> bool {
    command == "version"@ || command == "verack"@ || command == "getdata"@ || command == "ping"@
        || command == "alert"@ || command == "wtxidrelay"@ || command == "sendaddrv2"@
}

/// Whether `m` is a message that can be written so that a reader can tell it
/// from others: it is not longer than a message may be, its hashes
/// and addresses have their size, and it stands under its own name.
pub open spec fn is_message(m: MessageModel) -> bool {
    &&& payload_of(m).len() <= MAX_MSG_SIZE - 24
    &&& match m {
        MessageModel::Version(v) => is_version(v),
        MessageModel::GetData(items) => forall|k: int|
            0 <= k < items.len() ==> is_inventory(#[trigger] items[k]),
        MessageModel::Unknown { command, .. } => is_command(command) && !is_decoded(command),
        _ => true,
    }
}

/// What a reader makes of a message `m`: the messages that a peer has no reason
/// to send in this exchange are passed on undecoded.
pub open spec fn as_read(m: MessageModel) -> MessageModel {
    match m {
        MessageModel::Inv(_) | MessageModel::Tx(_) | MessageModel::Pong(_) => {
            MessageModel::Unknown { command: command_of(m), payload: payload_of(m) }
        },
        _ => m,
    }
}

/// A payload comes back from behind its header, whatever follows it, and is
/// then decoded by its command.
pub proof fn law_frame(magic: Seq<u8>, command: Seq<char>, payload: Seq<u8>, rest: Seq<u8>)
    requires
        magic.len() == 4,
        is_command(command),
        payload.len() <= MAX_MSG_SIZE - 24,
    ensures
        frame(magic, command, payload).len() == 24 + payload.len(),
        first_message(frame(magic, command, payload) + rest) == match message_in(
            command,
            payload,
        ) {
            Err(error) => Parsed::Invalid { error, length: 24 + payload.len() },
            Ok(message) => Parsed::Complete { magic, message, length: 24 + payload.len() },
        },
{
    let f = frame(magic, command, payload);
    let s = f + rest;
    law_command(command);
    lemma_pow256();
    lemma_le_bytes(payload.len(), 4);
    assert(s.subrange(4, 16) =~= command_bytes(command));
    assert(s.subrange(16, 20) =~= le_bytes(payload.len(), 4));
    assert(s.subrange(20, 24) =~= checksum_of(payload));
    assert(s.subrange(24, 24int + payload.len()) =~= payload);
    assert(s.take(4) =~= magic);
}

/// The names of messages can stand in a header.
proof fn lemma_commands()
    ensures
        is_command("version"@),
        is_command("verack"@),
        is_command("inv"@),
        is_command("getdata"@),
        is_command("tx"@),
        is_command("ping"@),
        is_command("pong"@),
        is_command("alert"@),
        is_command("wtxidrelay"@),
        is_command("sendaddrv2"@),
{
    reveal_strlit("version");
    reveal_strlit("verack");
    reveal_strlit("inv");
    reveal_strlit("getdata");
    reveal_strlit("tx");
    reveal_strlit("ping");
    reveal_strlit("pong");
    reveal_strlit("alert");
    reveal_strlit("wtxidrelay");
    reveal_strlit("sendaddrv2");
}

/// No two messages have the same name.
pub proof fn lemma_distinct_commands()
    ensures
        !is_decoded("inv"@),
        !is_decoded("tx"@),
        !is_decoded("pong"@),
        "version"@ != "verack"@,
        "version"@ != "getdata"@,
        "version"@ != "ping"@,
        "version"@ != "alert"@,
        "version"@ != "wtxidrelay"@,
        "version"@ != "sendaddrv2"@,
        "verack"@ != "getdata"@,
        "verack"@ != "ping"@,
        "verack"@ != "alert"@,
        "verack"@ != "wtxidrelay"@,
        "verack"@ != "sendaddrv2"@,
        "getdata"@ != "ping"@,
        "getdata"@ != "alert"@,
        "getdata"@ != "wtxidrelay"@,
        "getdata"@ != "sendaddrv2"@,
        "ping"@ != "alert"@,
        "ping"@ != "wtxidrelay"@,
        "ping"@ != "sendaddrv2"@,
        "alert"@ != "wtxidrelay"@,
        "alert"@ != "sendaddrv2"@,
        "wtxidrelay"@ != "sendaddrv2"@,
{
    reveal_strlit("version");
    reveal_strlit("verack");
    reveal_strlit("inv");
    reveal_strlit("getdata");
    reveal_strlit("tx");
    reveal_strlit("ping");
    reveal_strlit("pong");
    reveal_strlit("alert");
    reveal_strlit("wtxidrelay");
    reveal_strlit("sendaddrv2");
    assert("version"@[0] == 'v' && "version"@[2] == 'r' && "version"@.len() == 7);
    assert("verack"@[0] == 'v' && "verack"@.len() == 6);
    assert("getdata"@[0] == 'g');
    assert("ping"@[0] == 'p' && "ping"@[1] == 'i');
    assert("pong"@[0] == 'p' && "pong"@[1] == 'o');
    assert("alert"@[0] == 'a');
    assert("wtxidrelay"@[0] == 'w');
    assert("sendaddrv2"@[0] == 's');
    assert("inv"@[0] == 'i');
    assert("tx"@[0] == 't');
}

/// A message is decoded from its payload.
proof fn lemma_message_in(m: MessageModel)
    requires
        is_message(m),
    ensures
        is_command(command_of(m)),
        message_in(command_of(m), payload_of(m)) == Ok::<MessageModel, DecodeError>(as_read(m)),
{
    lemma_commands();
    lemma_distinct_commands();
    let payload = payload_of(m);
    let nothing = Seq::<u8>::empty();
    assert(payload + nothing =~= payload);
    match m {
        MessageModel::Version(v) => {
            lemma_version_parts(v);
            law_version(v, nothing);
        },
        MessageModel::GetData(items) => {
            let pieces = items.map_values(|i: InventoryModel| inventory_bytes(i));
            assert(items.len() <= u64::MAX) by {
                assert forall|k: int| 0 <= k < items.len() implies (#[trigger] pieces[k]).len()
                    == 36 by {
                    assert(is_inventory(items[k]));
                    lemma_le_bytes(inv_type(items[k]) as nat, 4);
                }
                lemma_pieces(pieces, 36, 0);
            }
            law_inventories(items, nothing);
        },
        MessageModel::Ping(nonce) => {
            law_nonce(nonce, nothing);
        },
        MessageModel::Alert(data) => {
            law_var_bytes(data, nothing);
        },
        _ => {},
    }
}

/// A message comes back from the stream it was written to, whatever follows it.
pub proof fn law_message(magic: Seq<u8>, m: MessageModel, rest: Seq<u8>)
    requires
        magic.len() == 4,
        is_message(m),
    ensures
        first_message(message_bytes(magic, m) + rest) == (Parsed::Complete {
            magic,
            message: as_read(m),
            length: message_bytes(magic, m).len(),
        }),
{
    lemma_message_in(m);
    law_frame(magic, command_of(m), payload_of(m), rest);
}

/// Bytes that come later change nothing about a message that is there, nor
/// about one that cannot be decoded: it does not matter how the stream is cut
/// into pieces. Nor is a message longer than it may be.
pub proof fn law_pieces(s: Seq<u8>, more: Seq<u8>)
    ensures
        first_message(s) !is Incomplete ==> first_message(s + more) == first_message(s),
        first_message(s) matches Parsed::Complete { length, .. } ==> 24 <= length <= s.len()
            && length <= MAX_MSG_SIZE,
        first_message(s) matches Parsed::Invalid { length, .. } ==> 16 <= length <= s.len(),
{
    let t = s + more;
    if s.len() >= 16 {
        assert(t.subrange(4, 16) =~= s.subrange(4, 16));
        if s.len() >= 24 {
            assert(t.subrange(16, 20) =~= s.subrange(16, 20));
            assert(t.subrange(20, 24) =~= s.subrange(20, 24));
            assert(t.take(4) =~= s.take(4));
            let length = 24 + le_at(s, 16, 4);
            if s.len() >= length {
                assert(t.subrange(24, length as int) =~= s.subrange(24, length as int));
            }
        }
    }
}

/// A message that is longer than it may be is refused on its header alone,
/// whatever its command and checksum are and however much of it is there.
pub proof fn law_too_long(
    magic: Seq<u8>,
    command: Seq<char>,
    size: nat,
    checksum: Seq<u8>,
    rest: Seq<u8>,
)
    requires
        magic.len() == 4,
        is_command(command),
        checksum.len() == 4,
        MAX_MSG_SIZE - 24 < size <= u32::MAX,
    ensures
        first_message(magic + command_bytes(command) + le_bytes(size, 4) + checksum + rest) == (
        Parsed::Invalid { error: DecodeError::UnexpectedEof, length: 24 }),
{
    let s = magic + command_bytes(command) + le_bytes(size, 4) + checksum + rest;
    law_command(command);
    lemma_pow256();
    lemma_le_bytes(size, 4);
    assert(s.subrange(4, 16) =~= command_bytes(command));
    assert(s.subrange(16, 20) =~= le_bytes(size, 4));
}

/// A payload whose checksum is not the one in its header is refused, whatever
/// the command is.
pub proof fn law_checksum(
    magic: Seq<u8>,
    command: Seq<char>,
    checksum: Seq<u8>,
    payload: Seq<u8>,
    rest: Seq<u8>,
)
    requires
        magic.len() == 4,
        is_command(command),
        checksum.len() == 4,
        payload.len() <= MAX_MSG_SIZE - 24,
    ensures
        checksum != checksum_of(payload) ==> first_message(
            magic + command_bytes(command) + le_bytes(payload.len(), 4) + checksum + payload + rest,
        ) == (Parsed::Invalid {
            error: DecodeError::InvalidChecksum {
                expected: array4(checksum_of(payload)),
                actual: array4(checksum),
            },
            length: 24 + payload.len(),
        }),
{
    let s = magic + command_bytes(command) + le_bytes(payload.len(), 4) + checksum + payload + rest;
    law_command(command);
    lemma_pow256();
    lemma_le_bytes(payload.len(), 4);
    assert(s.subrange(4, 16) =~= command_bytes(command));
    assert(s.subrange(16, 20) =~= le_bytes(payload.len(), 4));
    assert(s.subrange(20, 24) =~= checksum);
    assert(s.subrange(24, 24int + payload.len()) =~= payload);
}

/// Twelve bytes of any kind in place of the command, and four in place of the
/// checksum: the command is looked at first, then the size, then the checksum,
/// and then the payload by the command; and nothing is decided before the bytes
/// that decide it are there.
pub proof fn law_any_frame(
    magic: Seq<u8>,
    raw: Seq<u8>,
    checksum: Seq<u8>,
    payload: Seq<u8>,
    rest: Seq<u8>,
    n: int,
)
    requires
        magic.len() == 4,
        raw.len() == 12,
        checksum.len() == 4,
        payload.len() <= MAX_MSG_SIZE - 24,
        0 <= n < 24 + payload.len(),
    ensures
        ({
            let length = 24 + payload.len();
            let whole = magic + raw + le_bytes(payload.len(), 4) + checksum + payload;
            &&& whole.len() == length
            &&& first_message(whole + rest) == match command_in(raw) {
                Err(error) => Parsed::Invalid { error, length: 16 },
                Ok(command) => if checksum != checksum_of(payload) {
                    Parsed::Invalid {
                        error: DecodeError::InvalidChecksum {
                            expected: array4(checksum_of(payload)),
                            actual: array4(checksum),
                        },
                        length,
                    }
                } else {
                    match message_in(command, payload) {
                        Err(error) => Parsed::Invalid { error, length },
                        Ok(message) => Parsed::Complete { magic, message, length },
                    }
                },
            }
            &&& first_message(whole.take(n)) == match command_in(raw) {
                Err(error) => if n < 16 {
                    Parsed::Incomplete
                } else {
                    Parsed::Invalid { error, length: 16 }
                },
                Ok(_) => Parsed::Incomplete,
            }
        }),
{
    let whole = magic + raw + le_bytes(payload.len(), 4) + checksum + payload;
    let s = whole + rest;
    let t = whole.take(n);
    lemma_pow256();
    lemma_le_bytes(payload.len(), 4);
    assert(s.subrange(4, 16) =~= raw);
    assert(s.subrange(16, 20) =~= le_bytes(payload.len(), 4));
    assert(s.subrange(20, 24) =~= checksum);
    assert(s.subrange(24, 24int + payload.len()) =~= payload);
    assert(s.take(4) =~= magic);
    if n >= 16 {
        assert(t.subrange(4, 16) =~= raw);
    }
    if n >= 24 {
        assert(t.subrange(16, 20) =~= le_bytes(payload.len(), 4));
    }
}

/// Fewer than sixteen bytes decide nothing, and nothing is a message that has
/// not got its header and as much behind it as the header says, or that takes
/// more than five million bytes.
pub proof fn law_length(s: Seq<u8>)
    ensures
        MAX_MSG_SIZE == 5_000_000,
        s.len() < 16 ==> first_message(s) is Incomplete,
        first_message(s) matches Parsed::Complete { magic, length, .. } ==> {
            &&& magic == s.take(4)
            &&& length == 24 + le_at(s, 16, 4)
            &&& length <= s.len()
            &&& length <= 5_000_000
        },
        first_message(s) is Incomplete ==> s.len() < 24 || s.len() < 24 + le_at(s, 16, 4)
            <= 5_000_000,
{
}

/// A checksum is the first four bytes of the double hash, and four bytes are the
/// same as an array.
pub proof fn law_checksum_bytes(payload: Seq<u8>, four: Seq<u8>, i: int)
    requires
        four.len() == 4,
        0 <= i < 4,
    ensures
        checksum_of(payload).len() == 4,
        checksum_of(payload)[i] == double_sha256(payload)[i],
        array4(four)@ == four,
{
    assert(array4(four)@ =~= four);
}

/// Where everything stands in a written message: the network, the command with
/// a byte for each character and zeros behind, the size of the payload, its
/// checksum, and the payload.
pub proof fn law_layout(magic: Seq<u8>, command: Seq<char>, payload: Seq<u8>, i: int)
    requires
        magic.len() == 4,
        is_command(command),
        payload.len() <= u32::MAX,
        0 <= i < 12,
    ensures
        ({
            let f = frame(magic, command, payload);
            &&& f.len() == 24 + payload.len()
            &&& f.take(4) == magic
            &&& f[4 + i] == if i < command.len() {
                command[i] as u8
            } else {
                0
            }
            &&& le_at(f, 16, 4) == payload.len()
            &&& f.subrange(20, 24) == checksum_of(payload)
            &&& f.skip(24) == payload
        }),
{
    let f = frame(magic, command, payload);
    lemma_command_bytes(command);
    lemma_pow256();
    lemma_le_bytes(payload.len(), 4);
    assert(f.take(4) =~= magic);
    assert(f[4 + i] == command_bytes(command)[i]);
    assert(f.subrange(16, 20) =~= le_bytes(payload.len(), 4));
    assert(f.subrange(20, 24) =~= checksum_of(payload));
    assert(f.skip(24) =~= payload);
}

/// The messages that are sent go out under their names, with nothing, with the
/// nonce, or with the one item of the announcement behind its number.
pub proof fn law_sent_messages(
    magic: Seq<u8>,
    nonce: u64,
    hash: Seq<u8>,
    tx: TxModel,
    v: VersionModel,
)
    ensures
        message_bytes(magic, MessageModel::Verack) == frame(magic, "verack"@, Seq::empty()),
        message_bytes(magic, MessageModel::WtxidRelay) == frame(
            magic,
            "wtxidrelay"@,
            Seq::empty(),
        ),
        message_bytes(magic, MessageModel::SendAddrV2) == frame(
            magic,
            "sendaddrv2"@,
            Seq::empty(),
        ),
        message_bytes(magic, MessageModel::Pong(nonce)) == frame(
            magic,
            "pong"@,
            le_bytes(nonce as nat, 8),
        ),
        message_bytes(magic, MessageModel::Inv(seq![InventoryModel::Transaction(hash)])) == frame(
            magic,
            "inv"@,
            seq![1u8, 1, 0, 0, 0] + hash,
        ),
        message_bytes(magic, MessageModel::Inv(seq![InventoryModel::WTx(hash)])) == frame(
            magic,
            "inv"@,
            seq![1u8, 5, 0, 0, 0] + hash,
        ),
        message_bytes(magic, MessageModel::Tx(tx)) == frame(magic, "tx"@, tx_bytes(tx)),
        message_bytes(magic, MessageModel::Version(v)) == frame(
            magic,
            "version"@,
            version_bytes(v),
        ),
{
    reveal_with_fuel(le_bytes, 5);
    let (a, b) = (InventoryModel::Transaction(hash), InventoryModel::WTx(hash));
    let bytes = |i: InventoryModel| inventory_bytes(i);
    seq![a].map_values(bytes).lemma_flatten_one_element();
    seq![b].map_values(bytes).lemma_flatten_one_element();
    assert(payload_of(MessageModel::Inv(seq![a])) =~= seq![1u8, 1, 0, 0, 0] + hash);
    assert(payload_of(MessageModel::Inv(seq![b])) =~= seq![1u8, 5, 0, 0, 0] + hash);
}

} // verus!
