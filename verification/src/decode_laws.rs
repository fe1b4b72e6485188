//! What holds of reading any bytes, the wrong ones included.

use vstd::prelude::*;
use vstd::utf8::{decode_utf8_encode_utf8, encode_utf8, valid_utf8};

use crate::decode::{
    address_at, command_in, command_text, inventories_in, inventory_at, message_in, nonce_in,
    version_in,
};
use crate::error::DecodeError;
use crate::message::{
    address_bytes, inventories_bytes, inventory_bytes, version_bytes, InventoryModel, MessageModel,
    VersionModel,
};
use crate::round_trip::{
    is_inventory, is_version, law_inventories, law_var_bytes_form, law_varint_form, lemma_pieces,
    lemma_version_parts, version_head, version_tail,
};
use crate::stream_laws::lemma_distinct_commands;
use crate::wire::{
    be16_at, be16_bytes, bytes_of, le_at, le_bytes, le_value, lemma_le_bytes, lemma_le_value,
    lemma_pow256, pow256, var_bytes, varint_bytes, varint_of,
};

verus! {

/// Two bytes in big-endian order and the number that they spell determine each
/// other.
pub proof fn law_be16(v: u16, s: Seq<u8>, at: int)
    ensures
        be16_bytes(v).len() == 2,
        be16_bytes(v)[0] as int * 256 + be16_bytes(v)[1] as int == v,
        0 <= at && at + 2 <= s.len() ==> be16_bytes(be16_at(s, at)) == s.subrange(at, at + 2),
        0 <= at && at + 2 <= s.len() && s.subrange(at, at + 2) == be16_bytes(v) ==> be16_at(s, at)
            == v,
{
    if 0 <= at && at + 2 <= s.len() {
        assert(be16_bytes(be16_at(s, at)) =~= s.subrange(at, at + 2));
        assert(s.subrange(at, at + 2)[0] == s[at]);
        assert(s.subrange(at, at + 2)[1] == s[at + 1]);
    }
}

/// Little-endian bytes and the number that they spell determine each other, and
/// the first byte counts least.
pub proof fn law_le(v: nat, s: Seq<u8>, n: nat)
    ensures
        le_bytes(v, n).len() == n,
        n > 0 ==> le_bytes(v, n)[0] == v % 256,
        v < pow256(n) ==> le_value(le_bytes(v, n)) == v,
        le_bytes(le_value(s), s.len()) == s,
        s.len() > 0 ==> le_value(s) % 256 == s[0],
        s.len() > 0 ==> le_value(s) / 256 == le_value(s.skip(1)),
{
    lemma_le_bytes(v, n);
    lemma_le_value(s);
    if s.len() > 0 {
        assert(s.drop_first() =~= s.skip(1));
    }
}

/// Bytes that come later change nothing about a variable-length integer that is
/// there or that is not in its shortest form; and nine bytes are always enough
/// to tell.
pub proof fn law_varint_more(s: Seq<u8>, more: Seq<u8>)
    ensures
        varint_of(s) != Err::<(u64, nat), DecodeError>(DecodeError::UnexpectedEof) ==> varint_of(
            s + more,
        ) == varint_of(s),
        s.len() >= 9 ==> varint_of(s) != Err::<(u64, nat), DecodeError>(
            DecodeError::UnexpectedEof,
        ),
        varint_of(s) matches Err(e) ==> e is UnexpectedEof || e is NonMinimalVarInt,
        s.len() == 0 ==> varint_of(s) is Err,
{
    let t = s + more;
    if s.len() >= 1 {
        if s.len() >= 3 {
            assert(t.subrange(1, 3) =~= s.subrange(1, 3));
        }
        if s.len() >= 5 {
            assert(t.subrange(1, 5) =~= s.subrange(1, 5));
        }
        if s.len() >= 9 {
            assert(t.subrange(1, 9) =~= s.subrange(1, 9));
        }
    }
}

/// A written number that is cut short is missing bytes.
pub proof fn law_varint_short(v: u64, n: int)
    requires
        0 <= n < varint_bytes(v as nat).len(),
    ensures
        varint_of(varint_bytes(v as nat).take(n)) == Err::<(u64, nat), DecodeError>(
            DecodeError::UnexpectedEof,
        ),
{
    lemma_le_bytes(v as nat, 2);
    lemma_le_bytes(v as nat, 4);
    lemma_le_bytes(v as nat, 8);
    let s = varint_bytes(v as nat).take(n);
    if n > 0 {
        assert(s[0] == varint_bytes(v as nat)[0]);
    }
}

/// A byte string is missing bytes if and only if its length or its content is
/// not all there.
pub proof fn law_var_bytes_short(s: Seq<u8>)
    ensures
        varint_of(s) matches Err(e) ==> bytes_of(s) == Err::<(Seq<u8>, nat), DecodeError>(e),
        varint_of(s) matches Ok((n, width)) ==> bytes_of(s) == if s.len() < width + n {
            Err::<(Seq<u8>, nat), DecodeError>(DecodeError::UnexpectedEof)
        } else {
            Ok((s.skip(width as int).take(n as int), (width + n) as nat))
        },
{
    law_varint_form(s);
    if let Ok((n, width)) = varint_of(s) {
        if s.len() >= width + n {
            assert(s.skip(width as int).take(n as int) =~= s.subrange(width as int, width + n));
        }
    }
}

/// Eight bytes are a nonce, whatever they are and whatever follows them; fewer
/// are not.
pub proof fn law_nonce_form(s: Seq<u8>)
    ensures
        s.len() < 8 ==> nonce_in(s) == Err::<u64, DecodeError>(DecodeError::UnexpectedEof),
        s.len() >= 8 ==> nonce_in(s) is Ok && le_bytes(nonce_in(s)->Ok_0 as nat, 8) == s.take(8),
{
    if s.len() >= 8 {
        lemma_pow256();
        lemma_le_value(s.subrange(0, 8));
        assert(s.take(8) =~= s.subrange(0, 8));
    }
}

/// Every hash of 32 bytes comes back under the name of its type, and under its
/// number where the type has no name.
pub proof fn law_named_items(hash: Seq<u8>, other: u32, rest: Seq<u8>)
    requires
        hash.len() == 32,
        other != 1 && other != 2 && other != 4 && other != 5 && other != 0x4000_0001 && other
            != 0x4000_0002,
    ensures
        inventories_in(seq![1u8, 1, 0, 0, 0] + hash + rest) == Ok::<
            Seq<InventoryModel>,
            DecodeError,
        >(seq![InventoryModel::Transaction(hash)]),
        inventories_in(seq![1u8, 2, 0, 0, 0] + hash + rest) == Ok::<
            Seq<InventoryModel>,
            DecodeError,
        >(seq![InventoryModel::Block(hash)]),
        inventories_in(seq![1u8, 4, 0, 0, 0] + hash + rest) == Ok::<
            Seq<InventoryModel>,
            DecodeError,
        >(seq![InventoryModel::CompactBlock(hash)]),
        inventories_in(seq![1u8, 5, 0, 0, 0] + hash + rest) == Ok::<
            Seq<InventoryModel>,
            DecodeError,
        >(seq![InventoryModel::WTx(hash)]),
        inventories_in(seq![1u8, 1, 0, 0, 0x40] + hash + rest) == Ok::<
            Seq<InventoryModel>,
            DecodeError,
        >(seq![InventoryModel::WitnessTransaction(hash)]),
        inventories_in(seq![1u8, 2, 0, 0, 0x40] + hash + rest) == Ok::<
            Seq<InventoryModel>,
            DecodeError,
        >(seq![InventoryModel::WitnessBlock(hash)]),
        inventories_in(seq![1u8] + le_bytes(other as nat, 4) + hash + rest) == Ok::<
            Seq<InventoryModel>,
            DecodeError,
        >(seq![InventoryModel::Unknown { inv_type: other, hash }]),
{
    reveal_with_fuel(le_bytes, 5);
    lemma_one_item(InventoryModel::Transaction(hash), seq![1u8, 0, 0, 0], hash, rest);
    lemma_one_item(InventoryModel::Block(hash), seq![2u8, 0, 0, 0], hash, rest);
    lemma_one_item(InventoryModel::CompactBlock(hash), seq![4u8, 0, 0, 0], hash, rest);
    lemma_one_item(InventoryModel::WTx(hash), seq![5u8, 0, 0, 0], hash, rest);
    lemma_one_item(InventoryModel::WitnessTransaction(hash), seq![1u8, 0, 0, 0x40], hash, rest);
    lemma_one_item(InventoryModel::WitnessBlock(hash), seq![2u8, 0, 0, 0x40], hash, rest);
    let unknown = InventoryModel::Unknown { inv_type: other, hash };
    lemma_one_item(unknown, le_bytes(other as nat, 4), hash, rest);
    assert(seq![1u8] + seq![1u8, 0, 0, 0] =~= seq![1u8, 1, 0, 0, 0]);
    assert(seq![1u8] + seq![2u8, 0, 0, 0] =~= seq![1u8, 2, 0, 0, 0]);
    assert(seq![1u8] + seq![4u8, 0, 0, 0] =~= seq![1u8, 4, 0, 0, 0]);
    assert(seq![1u8] + seq![5u8, 0, 0, 0] =~= seq![1u8, 5, 0, 0, 0]);
    assert(seq![1u8] + seq![1u8, 0, 0, 0x40] =~= seq![1u8, 1, 0, 0, 0x40]);
    assert(seq![1u8] + seq![2u8, 0, 0, 0x40] =~= seq![1u8, 2, 0, 0, 0x40]);
}

/// A list of one item.
proof fn lemma_one_item(i: InventoryModel, tag: Seq<u8>, hash: Seq<u8>, rest: Seq<u8>)
    requires
        is_inventory(i),
        inventory_bytes(i) =~= tag + hash,
    ensures
        inventories_in(seq![1u8] + tag + hash + rest) == Ok::<Seq<InventoryModel>, DecodeError>(
            seq![i],
        ),
{
    let items = seq![i];
    let pieces = items.map_values(|i: InventoryModel| inventory_bytes(i));
    law_inventories(items, rest);
    pieces.lemma_flatten_one_element();
    assert(inventories_bytes(items) + rest =~= seq![1u8] + tag + hash + rest);
}

/// What is read as a list of items is what would be written for it; and bytes
/// are such a list if and only if they begin with a number and go on for 36
/// bytes for each item, whatever those are.
pub proof fn law_inventories_form(s: Seq<u8>)
    ensures
        varint_of(s) matches Err(e) ==> inventories_in(s) == Err::<
            Seq<InventoryModel>,
            DecodeError,
        >(e),
        varint_of(s) matches Ok((n, width)) ==> if s.len() < width + 36 * n {
            inventories_in(s) == Err::<Seq<InventoryModel>, DecodeError>(
                DecodeError::UnexpectedEof,
            )
        } else {
            inventories_in(s) matches Ok(items) && items.len() == n && (forall|k: int|
                0 <= k < n ==> is_inventory(#[trigger] items[k]) && inventory_bytes(items[k])
                    == s.subrange(width + 36 * k, width + 36 * k + 36))
        },
{
    law_varint_form(s);
    if let Ok((n, width)) = varint_of(s) {
        if s.len() >= width + 36 * n {
            let items = inventories_in(s)->Ok_0;
            assert forall|k: int| 0 <= k < n implies is_inventory(#[trigger] items[k])
                && inventory_bytes(items[k]) == s.subrange(
                width + 36 * k,
                width + 36 * k + 36,
            ) by {
                let at = width + 36 * k;
                lemma_pow256();
                lemma_le_value(s.subrange(at, at + 4));
                assert(items[k] == inventory_at(s, at));
                assert(inventory_bytes(items[k]) =~= s.subrange(at, at + 36));
            }
        }
    }
}

/// A network address that is read is what would be written for it.
proof fn lemma_address_form(s: Seq<u8>, at: int)
    requires
        0 <= at,
        at + 26 <= s.len(),
    ensures
        address_at(s, at).address.len() == 8,
        address_bytes(address_at(s, at)) == s.subrange(at, at + 26),
{
    let a = address_at(s, at);
    let words = a.address.map_values(|w: u16| be16_bytes(w));
    let b = address_bytes(a);
    lemma_pow256();
    lemma_le_value(s.subrange(at, at + 8));
    lemma_le_bytes(a.services as nat, 8);
    lemma_pieces(words, 2, 0);
    assert forall|i: int| 0 <= i < 26 implies #[trigger] b[i] == s[at + i] by {
        if i < 8 {
            assert(b[i] == le_bytes(a.services as nat, 8)[i]);
        } else if i < 24 {
            let k = (i - 8) / 2;
            lemma_pieces(words, 2, k);
            law_be16(0, s, at + 8 + 2 * k);
            let piece = words.flatten().subrange(2 * k, 2 * k + 2);
            assert(piece == be16_bytes(be16_at(s, at + 8 + 2 * k)));
            assert(piece[i - 8 - 2 * k] == words.flatten()[i - 8]);
            assert(b[i] == words.flatten()[i - 8]);
        } else {
            law_be16(0, s, at + 24);
            assert(b[i] == be16_bytes(a.port)[i - 24]);
        }
    }
    assert(b =~= s.subrange(at, at + 26));
}

/// Bytes are a version message if and only if there are 80 of them, then a text
/// with its length, and then five more; and what is read is what would be
/// written for it, but that any last byte other than zero says that the node
/// wants transactions.
pub proof fn law_version_form(s: Seq<u8>)
    ensures
        s.len() < 80 ==> version_in(s) == Err::<VersionModel, DecodeError>(
            DecodeError::UnexpectedEof,
        ),
        s.len() >= 80 ==> match bytes_of(s.skip(80)) {
            Err(e) => version_in(s) == Err::<VersionModel, DecodeError>(e),
            Ok((text, n)) => if !valid_utf8(text) {
                version_in(s) == Err::<VersionModel, DecodeError>(DecodeError::InvalidUtf8)
            } else if s.len() < 85 + n {
                version_in(s) == Err::<VersionModel, DecodeError>(DecodeError::UnexpectedEof)
            } else {
                version_in(s) matches Ok(v) && {
                    &&& is_version(v)
                    &&& version_bytes(v).len() == 85 + n
                    &&& version_bytes(v).drop_last() == s.take(84int + n)
                    &&& v.relay == (s[84int + n] != 0)
                }
            },
        },
{
    if s.len() >= 80 {
        if let Ok((text, n)) = bytes_of(s.skip(80)) {
            if valid_utf8(text) && s.len() >= 85 + n {
                let v = version_in(s)->Ok_0;
                lemma_pow256();
                lemma_le_value(s.subrange(0, 4));
                lemma_le_value(s.subrange(4, 12));
                lemma_le_value(s.subrange(12, 20));
                lemma_address_form(s, 20);
                lemma_address_form(s, 46);
                lemma_le_value(s.subrange(72, 80));
                lemma_le_value(s.subrange(80int + n, 84int + n));
                let (t, h): (u64, u32) = (le_at(s, 12, 8) as u64, le_at(s, 80int + n, 4) as u32);
                assert(t as i64 as u64 == t) by (bit_vector);
                assert(h as i32 as u32 == h) by (bit_vector);
                law_var_bytes_form(s.skip(80));
                decode_utf8_encode_utf8(text);
                lemma_version_parts(v);
                assert(version_head(v) =~= s.subrange(0, 4) + s.subrange(4, 12) + s.subrange(12, 20)
                    + s.subrange(20, 46) + s.subrange(46, 72) + s.subrange(72, 80));
                assert(version_head(v) =~= s.take(80));
                assert(var_bytes(encode_utf8(v.user_agent)) == s.skip(80).take(n as int));
                assert(version_tail(v).drop_last() =~= s.subrange(80int + n, 84int + n));
                assert(version_bytes(v).drop_last() =~= s.take(80) + s.skip(80).take(n as int)
                    + s.subrange(80int + n, 84int + n));
                assert(s.take(80) + s.skip(80).take(n as int) + s.subrange(80int + n, 84int + n)
                    =~= s.take(84int + n));
            }
        }
    }
}

/// The text of a command is put together from its bytes, one by one: zero gives
/// nothing, and any other byte the character with its number.
pub proof fn law_command_text(a: Seq<u8>, b: Seq<u8>, x: u8)
    ensures
        command_text(a + b) == command_text(a) + command_text(b),
        command_text(Seq::empty()) == Seq::<char>::empty(),
        command_text(seq![0u8]) == Seq::<char>::empty(),
        x != 0 ==> command_text(seq![x]).len() == 1 && command_text(seq![x])[0] as u32 == x,
    decreases b.len(),
{
    assert(seq![x].drop_last() =~= Seq::empty());
    assert(seq![0u8].drop_last() =~= Seq::empty());
    if b.len() == 0 {
        assert(a + b =~= a);
        assert(command_text(a) + command_text(b) =~= command_text(a));
    } else {
        law_command_text(a, b.drop_last(), x);
        assert((a + b).drop_last() =~= a + b.drop_last());
        assert((a + b).last() == b.last());
        assert(command_text(a + b) =~= command_text(a) + command_text(b));
    }
}

/// A command is refused if and only if its bytes other than zero, with those
/// from 0x80 on counted twice, are more than twelve.
pub proof fn law_command_size(raw: Seq<u8>)
    ensures
        command_in(raw) == if raw.filter(|b: u8| b > 0).len() + raw.filter(|b: u8| b >= 0x80).len()
            > 12 {
            Err(DecodeError::InvalidCommand)
        } else {
            Ok::<Seq<char>, DecodeError>(command_text(raw))
        },
{
    lemma_text_size(raw);
}

/// The number of bytes of a command as text.
proof fn lemma_text_size(raw: Seq<u8>)
    ensures
        encode_utf8(command_text(raw)).len() == raw.filter(|b: u8| b > 0).len() + raw.filter(
            |b: u8| b >= 0x80,
        ).len(),
    decreases raw.len(),
{
    let (some, high) = (|b: u8| b > 0, |b: u8| b >= 0x80);
    reveal(Seq::filter);
    if raw.len() == 0 {
        assert(command_text(raw) =~= Seq::empty());
    } else {
        let (x, rest) = (raw[0], raw.skip(1));
        assert(raw =~= seq![x] + rest);
        lemma_text_size(rest);
        law_command_text(seq![x], rest, x);
        Seq::filter_distributes_over_add(seq![x], rest, some);
        Seq::filter_distributes_over_add(seq![x], rest, high);
        let none = Seq::<u8>::empty();
        assert(seq![x].drop_last() =~= none);
        assert(none.filter(some).len() == 0);
        assert(none.filter(high).len() == 0);
        assert(seq![x].filter(some).len() == if x > 0 { 1int } else { 0int });
        assert(seq![x].filter(high).len() == if x >= 0x80 { 1int } else { 0int });
        if x == 0 {
            assert(command_text(raw) =~= command_text(rest));
        } else {
            let text = command_text(raw);
            assert(text.drop_first() =~= command_text(rest));
            assert(text[0] as u32 == x);
        }
    }
}

/// The messages without fields are known by their commands alone, and any
/// command that is none of the seven is passed on with its payload as it is.
pub proof fn law_on_command(command: Seq<char>, payload: Seq<u8>)
    ensures
        command == "verack"@ ==> message_in(command, payload) == Ok::<MessageModel, DecodeError>(
            MessageModel::Verack,
        ),
        command == "wtxidrelay"@ ==> message_in(command, payload) == Ok::<
            MessageModel,
            DecodeError,
        >(MessageModel::WtxidRelay),
        command == "sendaddrv2"@ ==> message_in(command, payload) == Ok::<
            MessageModel,
            DecodeError,
        >(MessageModel::SendAddrV2),
        command != "version"@ && command != "verack"@ && command != "getdata"@ && command
            != "ping"@ && command != "alert"@ && command != "wtxidrelay"@ && command
            != "sendaddrv2"@ ==> message_in(command, payload) == Ok::<MessageModel, DecodeError>(
            MessageModel::Unknown { command, payload },
        ),
{
    lemma_distinct_commands();
}

/// The messages with fields are read from their payloads: each is read if and
/// only if its fields are, whatever follows them, and is what they say.
pub proof fn law_on_fields(payload: Seq<u8>)
    ensures
        match version_in(payload) {
            Ok(v) => message_in("version"@, payload) == Ok::<MessageModel, DecodeError>(
                MessageModel::Version(v),
            ),
            Err(e) => message_in("version"@, payload) == Err::<MessageModel, DecodeError>(e),
        },
        match inventories_in(payload) {
            Ok(items) => message_in("getdata"@, payload) == Ok::<MessageModel, DecodeError>(
                MessageModel::GetData(items),
            ),
            Err(e) => message_in("getdata"@, payload) == Err::<MessageModel, DecodeError>(e),
        },
        match nonce_in(payload) {
            Ok(nonce) => message_in("ping"@, payload) == Ok::<MessageModel, DecodeError>(
                MessageModel::Ping(nonce),
            ),
            Err(e) => message_in("ping"@, payload) == Err::<MessageModel, DecodeError>(e),
        },
        match bytes_of(payload) {
            Ok((data, _)) => message_in("alert"@, payload) == Ok::<MessageModel, DecodeError>(
                MessageModel::Alert(data),
            ),
            Err(e) => message_in("alert"@, payload) == Err::<MessageModel, DecodeError>(e),
        },
{
    lemma_distinct_commands();
}

} // verus!
