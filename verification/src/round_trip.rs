//! Reading gives back what was written.

use vstd::prelude::*;
use vstd::utf8::{
    encode_utf8, encode_utf8_decode_utf8, encode_utf8_valid_utf8, is_ascii_chars,
    is_ascii_chars_encode_utf8,
};

use crate::decode::{
    address_at, command_in, command_text, inventories_in, inventory_at, nonce_in,
    version_in,
};
use crate::error::DecodeError;
use crate::message::{
    address_bytes, command_bytes, inv_hash, inv_type, inventories_bytes, inventory_bytes,
    version_bytes, AddressModel, InventoryModel, VersionModel,
};
use crate::wire::{
    be16_bytes, bytes_of, le_at, le_bytes, lemma_le_bytes, lemma_le_value, lemma_pow256, pow256,
    var_bytes, varint_bytes, varint_extra, varint_of,
};

verus! {

/// Whether a text can stand as a command in the header of a message: at most
/// twelve ASCII characters, none of them zero.
pub open spec fn is_command(command: Seq<char>) -> bool {
    &&& command.len() <= 12
    &&& forall|i: int| 0 <= i < command.len() ==> '\0' < #[trigger] command[i] <= '\u{7f}'
}

/// The bytes of a command: one for each character, and zeros.
pub proof fn lemma_command_bytes(command: Seq<char>)
    requires
        is_command(command),
    ensures
        encode_utf8(command).len() == command.len(),
        command_bytes(command).len() == 12,
        forall|i: int|
            0 <= i < 12 ==> #[trigger] command_bytes(command)[i] == if i < command.len() {
                command[i] as u8
            } else {
                0
            },
{
    assert(is_ascii_chars(command));
    is_ascii_chars_encode_utf8(command);
    let text = encode_utf8(command);
    assert forall|i: int| 0 <= i < 12 implies #[trigger] command_bytes(command)[i] == if i
        < command.len() {
        command[i] as u8
    } else {
        0
    } by {
        if i < command.len() {
            assert(text[i] == command[i] as u8);
        }
    }
}

/// The first `n` bytes of a written command give back its first characters.
proof fn lemma_command_text(command: Seq<char>, n: int)
    requires
        is_command(command),
        0 <= n <= 12,
    ensures
        command_text(command_bytes(command).take(n)) == if n <= command.len() {
            command.take(n)
        } else {
            command
        },
    decreases n,
{
    lemma_command_bytes(command);
    let raw = command_bytes(command);
    let got = command_text(raw.take(n));
    if n == 0 {
        assert(got =~= command.take(0));
    } else {
        lemma_command_text(command, n - 1);
        assert(raw.take(n).drop_last() =~= raw.take(n - 1));
        if n <= command.len() {
            let c = command[n - 1];
            assert('\0' < c <= '\u{7f}');
            assert(raw[n - 1] == c as u8);
            assert(got =~= command.take(n));
        } else {
            assert(raw[n - 1] == 0);
            assert(command.take(command.len() as int) =~= command);
        }
    }
}

/// A command that can stand in the header of a message comes back from it.
pub proof fn law_command(command: Seq<char>)
    requires
        is_command(command),
    ensures
        command_bytes(command).len() == 12,
        command_in(command_bytes(command)) == Ok::<Seq<char>, DecodeError>(command),
{
    lemma_command_bytes(command);
    lemma_command_text(command, 12);
    assert(command_bytes(command).take(12) =~= command_bytes(command));
    assert(command.take(command.len() as int) =~= command);
}

/// Little-endian bytes inside others give back the number.
proof fn lemma_le_at(s: Seq<u8>, at: int, v: nat, n: nat)
    requires
        0 <= at,
        at + n <= s.len(),
        v < pow256(n),
        s.subrange(at, at + n) == le_bytes(v, n),
    ensures
        le_at(s, at, n as int) == v,
{
    lemma_le_bytes(v, n);
}

/// A variable-length integer comes back, whatever follows it.
pub proof fn law_varint(v: u64, rest: Seq<u8>)
    ensures
        varint_of(varint_bytes(v as nat) + rest) == Ok::<(u64, nat), DecodeError>(
            (v, varint_bytes(v as nat).len()),
        ),
        1 <= varint_bytes(v as nat).len() <= 9,
{
    let s = varint_bytes(v as nat) + rest;
    lemma_pow256();
    lemma_le_bytes(v as nat, 2);
    lemma_le_bytes(v as nat, 4);
    lemma_le_bytes(v as nat, 8);
    if v < 0xFD {
    } else if v <= 0xFFFF {
        assert(s.subrange(1, 3) =~= le_bytes(v as nat, 2));
        lemma_le_at(s, 1, v as nat, 2);
    } else if v <= 0xFFFF_FFFF {
        assert(s.subrange(1, 5) =~= le_bytes(v as nat, 4));
        lemma_le_at(s, 1, v as nat, 4);
    } else {
        assert(s.subrange(1, 9) =~= le_bytes(v as nat, 8));
        lemma_le_at(s, 1, v as nat, 8);
    }
}

/// A byte string comes back, whatever follows it.
pub proof fn law_var_bytes(data: Seq<u8>, rest: Seq<u8>)
    requires
        data.len() <= u64::MAX,
    ensures
        bytes_of(var_bytes(data) + rest) == Ok::<(Seq<u8>, nat), DecodeError>(
            (data, var_bytes(data).len()),
        ),
{
    let s = var_bytes(data) + rest;
    let width = varint_bytes(data.len()).len() as int;
    law_varint(data.len() as u64, data + rest);
    assert(s =~= varint_bytes(data.len()) + (data + rest));
    assert(s.subrange(width, width + data.len()) =~= data);
}

/// A number has one form as a variable-length integer: what is read is what
/// would be written.
pub proof fn law_varint_form(s: Seq<u8>)
    ensures
        varint_of(s) matches Ok((v, width)) ==> width <= s.len() && s.take(width as int)
            == varint_bytes(v as nat),
{
    if let Ok((v, width)) = varint_of(s) {
        if s[0] < 0xFD {
            assert(s.take(1) =~= varint_bytes(v as nat));
        } else {
            let extra = varint_extra(s[0]);
            let tail = s.subrange(1, 1 + extra);
            lemma_pow256();
            lemma_le_value(tail);
            assert(s.take(1 + extra) =~= seq![s[0]] + tail);
        }
    }
}

/// A byte string has one form: what is read is what would be written.
pub proof fn law_var_bytes_form(s: Seq<u8>)
    ensures
        bytes_of(s) matches Ok((data, width)) ==> width <= s.len() && s.take(width as int)
            == var_bytes(data),
{
    law_varint_form(s);
    if let Ok((data, width)) = bytes_of(s) {
        let (n, head) = varint_of(s)->Ok_0;
        assert(s.take(width as int) =~= s.take(head as int) + data);
    }
}

/// Pieces of one size, put one after the other, can be found again.
pub proof fn lemma_pieces(pieces: Seq<Seq<u8>>, size: int, k: int)
    requires
        0 <= size,
        forall|i: int| 0 <= i < pieces.len() ==> (#[trigger] pieces[i]).len() == size,
    ensures
        pieces.flatten().len() == size * pieces.len(),
        0 <= k < pieces.len() ==> 0 <= size * k && size * k + size <= pieces.flatten().len()
            && pieces.flatten().subrange(size * k, size * k + size) == pieces[k],
    decreases pieces.len(),
{
    let n = pieces.len() as int;
    if n == 0 {
        assert(size * n == 0) by (nonlinear_arith)
            requires
                n == 0,
        ;
    } else {
        let tail = pieces.drop_first();
        lemma_pieces(tail, size, k - 1);
        assert(size * n == size + size * (n - 1)) by (nonlinear_arith);
        assert(size * k == size + size * (k - 1)) by (nonlinear_arith);
        let all = pieces.flatten();
        assert(all == pieces[0] + tail.flatten());
        if k == 0 {
            assert(size * 0 == 0) by (nonlinear_arith);
            assert(all.subrange(0, size) =~= pieces[0]);
        } else if 0 < k < n {
            assert(all.subrange(size * k, size * k + size) =~= tail.flatten().subrange(
                size * (k - 1),
                size * (k - 1) + size,
            ));
        }
    }
}

/// A network address comes back.
proof fn lemma_address(a: AddressModel, s: Seq<u8>, at: int)
    requires
        a.address.len() == 8,
        0 <= at,
        at + 26 <= s.len(),
        s.subrange(at, at + 26) == address_bytes(a),
    ensures
        address_at(s, at) == a,
{
    let words = a.address.map_values(|w: u16| be16_bytes(w));
    let b = address_bytes(a);
    lemma_pow256();
    lemma_le_bytes(a.services as nat, 8);
    lemma_pieces(words, 2, 0);
    assert(s.subrange(at, at + 8) =~= b.subrange(0, 8));
    assert(b.subrange(0, 8) =~= le_bytes(a.services as nat, 8));
    lemma_le_at(s, at, a.services as nat, 8);
    assert forall|k: int| 0 <= k < 8 implies #[trigger] address_at(s, at).address[k]
        == a.address[k] by {
        lemma_pieces(words, 2, k);
        let piece = words.flatten().subrange(2 * k, 2 * k + 2);
        assert(piece == be16_bytes(a.address[k]));
        assert(s[at + 8 + 2 * k] == s.subrange(at, at + 26)[8 + 2 * k]);
        assert(s[at + 8 + 2 * k + 1] == s.subrange(at, at + 26)[8 + 2 * k + 1]);
        assert(piece[0] == s[at + 8 + 2 * k]);
        assert(piece[1] == s[at + 8 + 2 * k + 1]);
    }
    assert(address_at(s, at).address =~= a.address);
    assert(s[at + 24] == s.subrange(at, at + 26)[24]);
    assert(s[at + 25] == s.subrange(at, at + 26)[25]);
}

/// The fields of a version message before the user agent.
pub open spec fn version_head(v: VersionModel) -> Seq<u8> {
    le_bytes(v.version as nat, 4) + le_bytes(v.services as nat, 8) + le_bytes(
        v.timestamp as u64 as nat,
        8,
    ) + address_bytes(v.receiver) + address_bytes(v.sender) + le_bytes(v.nonce as nat, 8)
}

/// The fields of a version message behind the user agent.
pub open spec fn version_tail(v: VersionModel) -> Seq<u8> {
    le_bytes(v.start_height as u32 as nat, 4) + seq![
        if v.relay {
            1u8
        } else {
            0u8
        },
    ]
}

/// Whether the addresses in a version message are IPv6 addresses.
pub open spec fn is_version(v: VersionModel) -> bool {
    v.receiver.address.len() == 8 && v.sender.address.len() == 8
}

/// The length of a network address.
proof fn lemma_address_len(a: AddressModel)
    requires
        a.address.len() == 8,
    ensures
        address_bytes(a).len() == 26,
{
    lemma_le_bytes(a.services as nat, 8);
    lemma_pieces(a.address.map_values(|w: u16| be16_bytes(w)), 2, 0);
}

/// The parts of a version message.
pub proof fn lemma_version_parts(v: VersionModel)
    requires
        is_version(v),
    ensures
        version_head(v).len() == 80,
        version_tail(v).len() == 5,
        version_bytes(v) == version_head(v) + var_bytes(encode_utf8(v.user_agent)) + version_tail(
            v,
        ),
{
    lemma_le_bytes(v.version as nat, 4);
    lemma_le_bytes(v.services as nat, 8);
    lemma_le_bytes(v.timestamp as u64 as nat, 8);
    lemma_le_bytes(v.nonce as nat, 8);
    lemma_le_bytes(v.start_height as u32 as nat, 4);
    lemma_address_len(v.receiver);
    lemma_address_len(v.sender);
    assert(version_bytes(v) =~= version_head(v) + var_bytes(encode_utf8(v.user_agent))
        + version_tail(v));
}

/// The length of a version message: 85 bytes and the user agent with its length.
pub proof fn law_version_len(v: VersionModel)
    requires
        is_version(v),
        encode_utf8(v.user_agent).len() <= u32::MAX,
    ensures
        version_bytes(v).len() == 85 + var_bytes(encode_utf8(v.user_agent)).len(),
        version_bytes(v).len() <= 90 + encode_utf8(v.user_agent).len(),
{
    lemma_version_parts(v);
    let n = encode_utf8(v.user_agent).len();
    lemma_le_bytes(n, 2);
    lemma_le_bytes(n, 4);
}

/// A version message comes back, whatever follows it.
pub proof fn law_version(v: VersionModel, rest: Seq<u8>)
    requires
        is_version(v),
        encode_utf8(v.user_agent).len() <= u64::MAX,
    ensures
        version_in(version_bytes(v) + rest) == Ok::<VersionModel, DecodeError>(v),
{
    let s = version_bytes(v) + rest;
    let text = encode_utf8(v.user_agent);
    let (head, tail) = (version_head(v), version_tail(v));
    let n = var_bytes(text).len() as int;
    lemma_version_parts(v);
    assert(s.skip(80) =~= var_bytes(text) + (tail + rest));
    law_var_bytes(text, tail + rest);
    encode_utf8_valid_utf8(v.user_agent);
    encode_utf8_decode_utf8(v.user_agent);
    lemma_pow256();
    lemma_le_bytes(v.version as nat, 4);
    lemma_le_bytes(v.services as nat, 8);
    lemma_le_bytes(v.timestamp as u64 as nat, 8);
    lemma_le_bytes(v.nonce as nat, 8);
    lemma_le_bytes(v.start_height as u32 as nat, 4);
    lemma_address_len(v.receiver);
    lemma_address_len(v.sender);
    assert(s.subrange(0, 80) =~= head);
    assert(s.subrange(0, 4) =~= head.subrange(0, 4));
    assert(head.subrange(0, 4) =~= le_bytes(v.version as nat, 4));
    lemma_le_at(s, 0, v.version as nat, 4);
    assert(s.subrange(4, 12) =~= head.subrange(4, 12));
    assert(head.subrange(4, 12) =~= le_bytes(v.services as nat, 8));
    lemma_le_at(s, 4, v.services as nat, 8);
    assert(s.subrange(12, 20) =~= head.subrange(12, 20));
    assert(head.subrange(12, 20) =~= le_bytes(v.timestamp as u64 as nat, 8));
    lemma_le_at(s, 12, v.timestamp as u64 as nat, 8);
    assert(s.subrange(20, 46) =~= head.subrange(20, 46));
    assert(head.subrange(20, 46) =~= address_bytes(v.receiver));
    lemma_address(v.receiver, s, 20);
    assert(s.subrange(46, 72) =~= head.subrange(46, 72));
    assert(head.subrange(46, 72) =~= address_bytes(v.sender));
    lemma_address(v.sender, s, 46);
    assert(s.subrange(72, 80) =~= head.subrange(72, 80));
    assert(head.subrange(72, 80) =~= le_bytes(v.nonce as nat, 8));
    lemma_le_at(s, 72, v.nonce as nat, 8);
    assert(s.subrange(80 + n, 80 + n + 5) =~= tail);
    assert(s.subrange(80 + n, 80 + n + 4) =~= tail.subrange(0, 4));
    assert(tail.subrange(0, 4) =~= le_bytes(v.start_height as u32 as nat, 4));
    lemma_le_at(s, 80 + n, v.start_height as u32 as nat, 4);
    assert(s[80 + n + 4] == tail[4]);
    let (timestamp, height): (i64, i32) = (v.timestamp, v.start_height);
    assert(timestamp as u64 as i64 == timestamp) by (bit_vector);
    assert(height as u32 as i32 == height) by (bit_vector);
}

/// Whether an inventory item has a hash of 32 bytes, and is known by its name
/// where its type has one.
pub open spec fn is_inventory(i: InventoryModel) -> bool {
    match i {
        InventoryModel::Transaction(h) => h.len() == 32,
        InventoryModel::Block(h) => h.len() == 32,
        InventoryModel::CompactBlock(h) => h.len() == 32,
        InventoryModel::WTx(h) => h.len() == 32,
        InventoryModel::WitnessTransaction(h) => h.len() == 32,
        InventoryModel::WitnessBlock(h) => h.len() == 32,
        InventoryModel::Unknown { inv_type, hash } => {
            &&& hash.len() == 32
            &&& inv_type != 1
            &&& inv_type != 2
            &&& inv_type != 4
            &&& inv_type != 5
            &&& inv_type != 0x4000_0001
            &&& inv_type != 0x4000_0002
        },
    }
}

/// A list of inventory items comes back, whatever follows it.
pub proof fn law_inventories(items: Seq<InventoryModel>, rest: Seq<u8>)
    requires
        items.len() <= u64::MAX,
        forall|k: int| 0 <= k < items.len() ==> is_inventory(#[trigger] items[k]),
    ensures
        inventories_in(inventories_bytes(items) + rest) == Ok::<Seq<InventoryModel>, DecodeError>(
            items,
        ),
{
    let pieces = items.map_values(|i: InventoryModel| inventory_bytes(i));
    let s = inventories_bytes(items) + rest;
    let width = varint_bytes(items.len()).len() as int;
    law_varint(items.len() as u64, pieces.flatten() + rest);
    assert(s =~= varint_bytes(items.len()) + (pieces.flatten() + rest));
    assert forall|k: int| 0 <= k < pieces.len() implies (#[trigger] pieces[k]).len() == 36 by {
        assert(is_inventory(items[k]));
        lemma_le_bytes(inv_type(items[k]) as nat, 4);
    }
    lemma_pieces(pieces, 36, 0);
    lemma_pow256();
    assert forall|k: int| 0 <= k < items.len() implies #[trigger] inventory_at(
        s,
        width + 36 * k,
    ) == items[k] by {
        let at = width + 36 * k;
        assert(is_inventory(items[k]));
        lemma_pieces(pieces, 36, k);
        lemma_le_bytes(inv_type(items[k]) as nat, 4);
        assert(s.subrange(at, at + 36) =~= pieces.flatten().subrange(36 * k, 36 * k + 36));
        assert(s.subrange(at, at + 36) == inventory_bytes(items[k]));
        assert(s.subrange(at, at + 4) =~= inventory_bytes(items[k]).subrange(0, 4));
        assert(inventory_bytes(items[k]).subrange(0, 4) =~= le_bytes(
            inv_type(items[k]) as nat,
            4,
        ));
        lemma_le_at(s, at, inv_type(items[k]) as nat, 4);
        assert(s.subrange(at + 4, at + 36) =~= inventory_bytes(items[k]).subrange(4, 36));
        assert(inventory_bytes(items[k]).subrange(4, 36) =~= inv_hash(items[k]));
    }
    assert(inventories_in(s)->Ok_0 =~= items);
}

/// A nonce comes back, whatever follows it.
pub proof fn law_nonce(nonce: u64, rest: Seq<u8>)
    ensures
        nonce_in(le_bytes(nonce as nat, 8) + rest) == Ok::<u64, DecodeError>(nonce),
{
    let s = le_bytes(nonce as nat, 8) + rest;
    lemma_pow256();
    lemma_le_bytes(nonce as nat, 8);
    assert(s.subrange(0, 8) =~= le_bytes(nonce as nat, 8));
    lemma_le_at(s, 0, nonce as nat, 8);
}

} // verus!
