//! The protobuf encoding of the user settings Discord stores server side
//! (`settings-proto/1`): the guild folder list and the presence status.
use crate::guild::GuildFolder;
use crate::presence::{PresenceStatus, presence_gateway_status};
use crate::json::{entries_view, json_object, json_object_value, json_string, json_string_value};
use base64::Engine;
use serde_json::Value;
use vstd::prelude::*;
use vstd::utf8::encode_utf8;

verus! {

/// Base-128 varint: seven bits per byte, least significant group first, the
/// high bit set on every byte but the last.
pub open spec fn varint(n: nat) -> Seq<u8>
    decreases n,
{
    if n < 128 {
        seq![n as u8]
    } else {
        seq![((n % 128) + 128) as u8] + varint(n / 128)
    }
}

/// Field key: field number and wire type.
pub open spec fn field_key(field: nat, wire_type: nat) -> nat {
    field * 8 + wire_type
}

/// A length-delimited field (wire type 2).
pub open spec fn len_field(field: nat, payload: Seq<u8>) -> Seq<u8> {
    varint(field_key(field, 2)) + varint(payload.len()) + payload
}

/// A varint field (wire type 0).
pub open spec fn varint_field(field: nat, value: nat) -> Seq<u8> {
    varint(field_key(field, 0)) + varint(value)
}

/// A wrapper message holding one varint in field 1.
pub open spec fn varint_wrapper(value: nat) -> Seq<u8> {
    varint_field(1, value)
}

/// A wrapper message holding one string in field 1.
pub open spec fn string_wrapper(value: Seq<char>) -> Seq<u8> {
    len_field(1, encode_utf8(value))
}

/// The eight little-endian bytes of a 64-bit value.
pub open spec fn le_bytes(v: u64) -> Seq<u8> {
    Seq::new(8, |i: int| ((v >> ((8 * i) as u64)) & 0xff) as u8)
}

/// Little-endian bytes of each id, one after the other.
pub open spec fn packed_ids(ids: Seq<u64>) -> Seq<u8>
    decreases ids.len(),
{
    if ids.len() == 0 {
        seq![]
    } else {
        packed_ids(ids.drop_last()) + le_bytes(ids.last())
    }
}

/// The fields of one guild folder message; absent parts are left out.
pub open spec fn guild_folder_message(
    ids: Seq<u64>,
    id: Option<u64>,
    name: Option<Seq<char>>,
    color: Option<u32>,
) -> Seq<u8> {
    (if ids.len() == 0 {
        seq![]
    } else {
        len_field(1, packed_ids(ids))
    }) + (match id {
        Some(id) => len_field(2, varint_wrapper(id as nat)),
        None => seq![],
    }) + (match name {
        Some(name) => len_field(3, string_wrapper(name)),
        None => seq![],
    }) + (match color {
        Some(color) => len_field(4, varint_wrapper(color as nat)),
        None => seq![],
    })
}

pub open spec fn folder_ids(folder: GuildFolder) -> Seq<u64> {
    folder.guild_ids@.map_values(|id: crate::ids::Id<crate::marker::GuildMarker>| id@)
}

pub open spec fn folder_name(folder: GuildFolder) -> Option<Seq<char>> {
    match folder.name {
        Some(name) => Some(name@),
        None => None,
    }
}

pub open spec fn folder_message(folder: GuildFolder) -> Seq<u8> {
    guild_folder_message(folder_ids(folder), folder.id, folder_name(folder), folder.color)
}

/// Each folder as a field-1 entry, in order.
pub open spec fn folder_entries(folders: Seq<GuildFolder>) -> Seq<u8>
    decreases folders.len(),
{
    if folders.len() == 0 {
        seq![]
    } else {
        folder_entries(folders.drop_last()) + len_field(1, folder_message(folders.last()))
    }
}

/// The settings message carrying the folder list (field 14).
pub open spec fn preloaded_guild_folders(folders: Seq<GuildFolder>) -> Seq<u8> {
    len_field(14, folder_entries(folders))
}

/// The settings message carrying the status (field 11, holding field 1).
pub open spec fn preloaded_status(status: PresenceStatus) -> Seq<u8> {
    len_field(11, len_field(1, string_wrapper(presence_gateway_status(status))))
}

/// Appends the varint encoding of `value`.
pub fn write_varint(bytes: &mut Vec<u8>, value: u64)
    ensures
        final(bytes)@ == old(bytes)@ + varint(value as nat),
{
    let ghost start = bytes@;
    let mut rest = value;
    while rest >= 0x80
        invariant
            bytes@ + varint(rest as nat) == start + varint(value as nat),
        decreases rest,
    {
        let byte = (rest as u8) | 0x80;
        assert(byte == ((rest % 128) + 128) as u8) by (bit_vector)
            requires
                byte == (rest as u8) | 0x80u8,
        ;
        assert(rest >> 7 == rest / 128) by (bit_vector);
        bytes.push(byte);
        proof {
            assert(varint(rest as nat) == seq![((rest % 128) + 128) as u8] + varint(
                (rest / 128) as nat,
            ));
        }
        let ghost before = rest;
        rest = rest >> 7;
        proof {
            assert(bytes@ + varint(rest as nat) =~= (bytes@.drop_last()) + varint(before as nat));
        }
    }
    bytes.push(rest as u8);
    proof {
        assert(varint(rest as nat) == seq![rest as u8]);
    }
}

/// Appends a varint field.
pub fn write_varint_field(bytes: &mut Vec<u8>, field: u32, value: u64)
    requires
        field < 0x2000_0000,
    ensures
        final(bytes)@ == old(bytes)@ + varint_field(field as nat, value as nat),
{
    let key = field << 3;
    assert(key == field * 8) by (bit_vector)
        requires
            key == field << 3,
            field < 0x2000_0000u32,
    ;
    write_varint(bytes, key as u64);
    write_varint(bytes, value);
    proof {
        assert(bytes@ =~= old(bytes)@ + varint_field(field as nat, value as nat));
    }
}

/// Appends a length-delimited field holding `value`.
pub fn write_len_field(bytes: &mut Vec<u8>, field: u32, value: &[u8])
    requires
        field < 0x2000_0000,
    ensures
        final(bytes)@ == old(bytes)@ + len_field(field as nat, value@),
{
    let key = (field << 3) | 2;
    assert(key == field * 8 + 2) by (bit_vector)
        requires
            key == (field << 3) | 2u32,
            field < 0x2000_0000u32,
    ;
    write_varint(bytes, key as u64);
    write_varint(bytes, value.len() as u64);
    bytes.extend_from_slice(value);
    proof {
        assert(bytes@ =~= old(bytes)@ + len_field(field as nat, value@));
    }
}

/// A wrapper message holding one varint.
pub fn encode_varint_wrapper(value: u64) -> (r: Vec<u8>)
    ensures
        r@ == varint_wrapper(value as nat),
{
    let mut bytes = Vec::new();
    write_varint_field(&mut bytes, 1, value);
    proof {
        assert(bytes@ =~= varint_wrapper(value as nat));
    }
    bytes
}

/// A wrapper message holding one string.
pub fn encode_string_wrapper(value: &str) -> (r: Vec<u8>)
    ensures
        r@ == string_wrapper(value@),
{
    let mut bytes = Vec::new();
    write_len_field(&mut bytes, 1, value.as_bytes());
    proof {
        assert(bytes@ =~= string_wrapper(value@));
    }
    bytes
}

/// Appends the eight little-endian bytes of `v`.
pub fn push_le_bytes(bytes: &mut Vec<u8>, v: u64)
    ensures
        final(bytes)@ == old(bytes)@ + le_bytes(v),
{
    let mut i: u64 = 0;
    while i < 8
        invariant
            i <= 8,
            bytes@ == old(bytes)@ + le_bytes(v).take(i as int),
        decreases 8 - i,
    {
        let b = ((v >> (8 * i)) & 0xff) as u8;
        bytes.push(b);
        i = i + 1;
        proof {
            assert(le_bytes(v).take(i as int) =~= le_bytes(v).take(i - 1).push(b));
        }
    }
    proof {
        assert(le_bytes(v).take(8) =~= le_bytes(v));
    }
}

/// One guild folder message.
pub fn encode_guild_folder(folder: &GuildFolder) -> (r: Vec<u8>)
    ensures
        r@ == folder_message(*folder),
{
    let mut bytes = Vec::new();
    if folder.guild_ids.len() != 0 {
        let mut guild_ids: Vec<u8> = Vec::new();
        let mut i: usize = 0;
        while i < folder.guild_ids.len()
            invariant
                i <= folder.guild_ids.len(),
                guild_ids@ == packed_ids(folder_ids(*folder).take(i as int)),
            decreases folder.guild_ids.len() - i,
        {
            push_le_bytes(&mut guild_ids, folder.guild_ids[i].get());
            i = i + 1;
            proof {
                let ids = folder_ids(*folder);
                assert(ids.take(i as int).drop_last() =~= ids.take(i - 1));
            }
        }
        proof {
            assert(folder_ids(*folder).take(i as int) =~= folder_ids(*folder));
        }
        write_len_field(&mut bytes, 1, guild_ids.as_slice());
    }
    let ghost after_ids = bytes@;
    match folder.id {
        Some(id) => {
            let wrapper = encode_varint_wrapper(id);
            write_len_field(&mut bytes, 2, wrapper.as_slice());
        },
        None => {},
    }
    let ghost after_id = bytes@;
    match &folder.name {
        Some(name) => {
            let wrapper = encode_string_wrapper(name.as_str());
            write_len_field(&mut bytes, 3, wrapper.as_slice());
        },
        None => {},
    }
    let ghost after_name = bytes@;
    match folder.color {
        Some(color) => {
            let wrapper = encode_varint_wrapper(color as u64);
            write_len_field(&mut bytes, 4, wrapper.as_slice());
        },
        None => {},
    }
    proof {
        assert(folder_ids(*folder).len() == folder.guild_ids@.len());
        assert(bytes@ =~= folder_message(*folder));
    }
    bytes
}

/// The settings message holding the whole folder list.
pub fn encode_preloaded_guild_folders(folders: &[GuildFolder]) -> (r: Vec<u8>)
    ensures
        r@ == preloaded_guild_folders(folders@),
{
    let mut guild_folders: Vec<u8> = Vec::new();
    let mut i: usize = 0;
    while i < folders.len()
        invariant
            i <= folders@.len(),
            guild_folders@ == folder_entries(folders@.take(i as int)),
        decreases folders@.len() - i,
    {
        let message = encode_guild_folder(&folders[i]);
        write_len_field(&mut guild_folders, 1, message.as_slice());
        i = i + 1;
        proof {
            assert(folders@.take(i as int).drop_last() =~= folders@.take(i - 1));
        }
    }
    proof {
        assert(folders@.take(i as int) =~= folders@);
    }
    let mut settings = Vec::new();
    write_len_field(&mut settings, 14, guild_folders.as_slice());
    proof {
        assert(settings@ =~= preloaded_guild_folders(folders@));
    }
    settings
}

/// The settings message holding the presence status.
pub fn encode_preloaded_status(status: PresenceStatus) -> (r: Vec<u8>)
    ensures
        r@ == preloaded_status(status),
{
    let mut status_settings = Vec::new();
    let wrapper = encode_string_wrapper(status.gateway_status());
    write_len_field(&mut status_settings, 1, wrapper.as_slice());
    let mut settings = Vec::new();
    write_len_field(&mut settings, 11, status_settings.as_slice());
    proof {
        assert(settings@ =~= preloaded_status(status));
    }
    settings
}

/// Reads one varint from the front of `b`: its value and how many bytes it took.
pub open spec fn varint_decode(b: Seq<u8>) -> Option<(nat, nat)>
    decreases b.len(),
{
    if b.len() == 0 {
        None
    } else if b[0] < 128 {
        Some((b[0] as nat, 1nat))
    } else {
        match varint_decode(b.drop_first()) {
            Some((v, k)) => Some((((b[0] - 128) + 128 * v) as nat, k + 1)),
            None => None,
        }
    }
}

/// Reads one length-delimited field from the front of `b`: its field number,
/// its payload and how many bytes it took.
pub open spec fn len_field_decode(b: Seq<u8>) -> Option<(nat, Seq<u8>, nat)> {
    match varint_decode(b) {
        None => None,
        Some((key, k1)) => if key % 8 != 2 {
            None
        } else {
            match varint_decode(b.skip(k1 as int)) {
                None => None,
                Some((len, k2)) => if k1 + k2 + len > b.len() {
                    None
                } else {
                    Some((key / 8, b.subrange((k1 + k2) as int, (k1 + k2 + len) as int), k1 + k2 + len))
                },
            }
        },
    }
}

/// A varint reads back as the value it encodes, whatever bytes follow it.
pub proof fn lemma_varint_round_trip(n: nat, rest: Seq<u8>)
    ensures
        varint_decode(varint(n) + rest) == Some((n, varint(n).len())),
    decreases n,
{
    if n < 128 {
        assert((varint(n) + rest)[0] == n as u8);
    } else {
        let b = varint(n) + rest;
        lemma_varint_round_trip(n / 128, rest);
        assert(b.drop_first() =~= varint(n / 128) + rest);
        assert(b[0] == ((n % 128) + 128) as u8);
    }
}

/// A length-delimited field reads back as the same field number and payload,
/// whatever bytes follow it.
pub proof fn lemma_len_field_round_trip(field: nat, payload: Seq<u8>, rest: Seq<u8>)
    ensures
        len_field_decode(len_field(field, payload) + rest) == Some(
            (field, payload, len_field(field, payload).len()),
        ),
{
    let key_bytes = varint(field_key(field, 2));
    let len_bytes = varint(payload.len());
    let b = len_field(field, payload) + rest;
    lemma_varint_round_trip(field_key(field, 2), len_bytes + payload + rest);
    assert(b =~= key_bytes + (len_bytes + payload + rest));
    lemma_varint_round_trip(payload.len(), payload + rest);
    assert(b.skip(key_bytes.len() as int) =~= len_bytes + (payload + rest));
    assert(b.subrange(
        (key_bytes.len() + len_bytes.len()) as int,
        (key_bytes.len() + len_bytes.len() + payload.len()) as int,
    ) =~= payload);
}

/// The payload of the first length-delimited field numbered `field`, reading
/// the message field by field from the front.
pub open spec fn find_len_field(b: Seq<u8>, field: nat) -> Option<Seq<u8>>
    decreases b.len(),
{
    match len_field_decode(b) {
        None => None,
        Some((f, payload, k)) => if f == field {
            Some(payload)
        } else if 0 < k <= b.len() {
            find_len_field(b.skip(k as int), field)
        } else {
            None
        },
    }
}

proof fn lemma_varint_nonempty(n: nat)
    ensures
        varint(n).len() >= 1,
{
}

/// Looking a field up past a leading field of another number goes on to the
/// rest of the message.
proof fn lemma_find_past_field(f: nat, payload: Seq<u8>, rest: Seq<u8>, field: nat)
    ensures
        find_len_field(len_field(f, payload) + rest, field) == if f == field {
            Some(payload)
        } else {
            find_len_field(rest, field)
        },
{
    let b = len_field(f, payload) + rest;
    lemma_len_field_round_trip(f, payload, rest);
    lemma_varint_nonempty(field_key(f, 2));
    assert(b.skip(len_field(f, payload).len() as int) =~= rest);
}

/// A folder message reads back, field by field, as the folder: field 1 holds
/// the packed guild ids (when there are any), field 2 a wrapper whose field 1
/// is the id, field 3 a wrapper whose field 1 is the UTF-8 text of the name,
/// and field 4 a wrapper whose field 1 is the color. An absent part has no
/// field.
pub proof fn lemma_folder_message_reads_back(folder: GuildFolder)
    ensures
        ({
            let m = folder_message(folder);
            &&& match folder.name {
                Some(name) => find_len_field(m, 3) matches Some(w) && find_len_field(w, 1)
                    == Some(encode_utf8(name@)),
                None => find_len_field(m, 3) is None,
            }
            &&& match folder.id {
                Some(id) => find_len_field(m, 2) matches Some(w) && varint_decode(w) == Some(
                    (8nat, 1nat),
                ) && varint_decode(w.skip(1)) is Some && varint_decode(w.skip(1)).unwrap().0 == id,
                None => find_len_field(m, 2) is None,
            }
            &&& match folder.color {
                Some(color) => find_len_field(m, 4) matches Some(w) && varint_decode(w) == Some(
                    (8nat, 1nat),
                ) && varint_decode(w.skip(1)) is Some && varint_decode(w.skip(1)).unwrap().0 == color,
                None => find_len_field(m, 4) is None,
            }
            &&& (folder.guild_ids.len() == 0 <==> find_len_field(m, 1) is None)
            &&& (folder.guild_ids.len() != 0 ==> find_len_field(m, 1) == Some(
                packed_ids(folder_ids(folder)),
            ))
        }),
{
    let m = folder_message(folder);
    lemma_folder_field(folder, 1);
    lemma_folder_field(folder, 2);
    lemma_folder_field(folder, 3);
    lemma_folder_field(folder, 4);
    assert(folder_ids(folder).len() == folder.guild_ids@.len());
    match folder.name {
        Some(name) => {
            lemma_find_past_field(1, encode_utf8(name@), seq![], 1);
            assert(string_wrapper(name@) + seq![] =~= string_wrapper(name@));
        },
        None => {},
    }
    match folder.id {
        Some(id) => lemma_varint_wrapper_reads_back(id as nat),
        None => {},
    }
    match folder.color {
        Some(color) => lemma_varint_wrapper_reads_back(color as nat),
        None => {},
    }
}

proof fn lemma_varint_wrapper_reads_back(v: nat)
    ensures
        varint_decode(varint_wrapper(v)) == Some((8nat, 1nat)),
        varint_decode(varint_wrapper(v).skip(1)) == Some((v, varint(v).len())),
{
    let w = varint_wrapper(v);
    lemma_varint_round_trip(8, varint(v));
    assert(w =~= varint(8) + varint(v));
    assert(varint(8) =~= seq![8u8]);
    assert(w.skip(1) =~= varint(v) + seq![]);
    lemma_varint_round_trip(v, seq![]);
}

spec fn folder_field_payload(folder: GuildFolder, field: nat) -> Option<Seq<u8>> {
    if field == 1 && folder_ids(folder).len() != 0 {
        Some(packed_ids(folder_ids(folder)))
    } else if field == 2 && folder.id is Some {
        Some(varint_wrapper(folder.id->0 as nat))
    } else if field == 3 && folder.name is Some {
        Some(string_wrapper(folder.name->0@))
    } else if field == 4 && folder.color is Some {
        Some(varint_wrapper(folder.color->0 as nat))
    } else {
        None
    }
}

#[verifier::rlimit(30)]
proof fn lemma_folder_field(folder: GuildFolder, field: nat)
    requires
        1 <= field <= 4,
    ensures
        find_len_field(folder_message(folder), field) == folder_field_payload(folder, field),
{
    let ids = folder_ids(folder);
    let a = if ids.len() == 0 {
        seq![]
    } else {
        len_field(1, packed_ids(ids))
    };
    let b = match folder.id {
        Some(id) => len_field(2, varint_wrapper(id as nat)),
        None => seq![],
    };
    let c = match folder_name(folder) {
        Some(text) => len_field(3, string_wrapper(text)),
        None => seq![],
    };
    let d = match folder.color {
        Some(color) => len_field(4, varint_wrapper(color as nat)),
        None => seq![],
    };
    let m = folder_message(folder);
    assert(m == a + b + c + d);
    assert(len_field_decode(seq![]) is None) by {
        assert(varint_decode(seq![]) is None);
    }
    assert(find_len_field(seq![], field) is None);
    if folder.color is Some {
        lemma_find_past_field(4, varint_wrapper(folder.color->0 as nat), seq![], field);
        assert(d + seq![] =~= d);
    }
    assert(find_len_field(d, field) == if field == 4 && folder.color is Some {
        Some(varint_wrapper(folder.color->0 as nat))
    } else {
        None
    });
    let cd = c + d;
    if folder.name is Some {
        lemma_find_past_field(3, string_wrapper(folder.name->0@), d, field);
    } else {
        assert(cd =~= d);
    }
    let bcd = b + cd;
    if folder.id is Some {
        lemma_find_past_field(2, varint_wrapper(folder.id->0 as nat), cd, field);
    } else {
        assert(bcd =~= cd);
    }
    assert(m =~= a + bcd);
    if ids.len() != 0 {
        lemma_find_past_field(1, packed_ids(ids), bcd, field);
    } else {
        assert(m =~= bcd);
    }
}

/// Every length-delimited field of a message, from the front: its number and
/// its payload. Reading stops at the first byte that does not start one.
pub open spec fn len_fields(b: Seq<u8>) -> Seq<(nat, Seq<u8>)>
    decreases b.len(),
{
    match len_field_decode(b) {
        None => seq![],
        Some((f, payload, k)) => if 0 < k <= b.len() {
            seq![(f, payload)] + len_fields(b.skip(k as int))
        } else {
            seq![]
        },
    }
}

proof fn lemma_len_fields_past_field(f: nat, payload: Seq<u8>, rest: Seq<u8>)
    ensures
        len_fields(len_field(f, payload) + rest) == seq![(f, payload)] + len_fields(rest),
{
    let b = len_field(f, payload) + rest;
    lemma_len_field_round_trip(f, payload, rest);
    lemma_varint_nonempty(field_key(f, 2));
    assert(b.skip(len_field(f, payload).len() as int) =~= rest);
}

proof fn lemma_folder_entries_fields(folders: Seq<GuildFolder>, rest: Seq<u8>)
    ensures
        len_fields(folder_entries(folders) + rest) == Seq::new(
            folders.len(),
            |i: int| (1nat, folder_message(folders[i])),
        ) + len_fields(rest),
    decreases folders.len(),
{
    let expected = |gs: Seq<GuildFolder>|
        Seq::new(gs.len(), |i: int| (1nat, folder_message(gs[i])));
    if folders.len() == 0 {
        assert(folder_entries(folders) + rest =~= rest);
        assert(expected(folders) + len_fields(rest) =~= len_fields(rest));
    } else {
        let init = folders.drop_last();
        let last = len_field(1, folder_message(folders.last()));
        lemma_len_fields_past_field(1, folder_message(folders.last()), rest);
        lemma_folder_entries_fields(init, last + rest);
        assert(folder_entries(folders) + rest =~= folder_entries(init) + (last + rest));
        assert(expected(folders) =~= expected(init) + seq![(1nat, folder_message(folders.last()))]);
        assert(expected(folders) + len_fields(rest) =~= expected(init) + (seq![
            (1nat, folder_message(folders.last())),
        ] + len_fields(rest)));
    }
}

/// The folder settings message is a single field 14 whose payload reads back
/// as one field 1 per folder, in order, each holding that folder's message.
pub proof fn lemma_preloaded_folders_read_back(folders: Seq<GuildFolder>)
    ensures
        ({
            let m = preloaded_guild_folders(folders);
            &&& len_fields(m).len() == 1
            &&& len_fields(m)[0].0 == 14
            &&& len_fields(len_fields(m)[0].1) == Seq::new(
                folders.len(),
                |i: int| (1nat, folder_message(folders[i])),
            )
        }),
{
    let entries = folder_entries(folders);
    lemma_len_fields_past_field(14, entries, seq![]);
    assert(preloaded_guild_folders(folders) + seq![] =~= preloaded_guild_folders(folders));
    assert(len_field_decode(seq![]) is None) by {
        assert(varint_decode(seq![]) is None);
    }
    assert(len_fields(seq![]) =~= seq![]);
    lemma_folder_entries_fields(folders, seq![]);
    assert(entries + seq![] =~= entries);
}

/// The status settings message reads back, field by field, as the status word.
pub proof fn lemma_status_settings_round_trip(status: PresenceStatus)
    ensures
        ({
            let word = presence_gateway_status(status);
            let middle = len_field(1, string_wrapper(word));
            let inner = string_wrapper(word);
            &&& len_field_decode(preloaded_status(status)) == Some(
                (11nat, middle, preloaded_status(status).len()),
            )
            &&& len_field_decode(middle) == Some((1nat, inner, middle.len()))
            &&& len_field_decode(inner) == Some(
                (
                    1nat,
                    encode_utf8(presence_gateway_status(status)),
                    string_wrapper(presence_gateway_status(status)).len(),
                ),
            )
        }),
{
    let word = presence_gateway_status(status);
    let inner = string_wrapper(word);
    let middle = len_field(1, inner);
    lemma_len_field_round_trip(11, middle, seq![]);
    assert(preloaded_status(status) + seq![] =~= preloaded_status(status));
    lemma_len_field_round_trip(1, inner, seq![]);
    assert(middle + seq![] =~= middle);
    lemma_len_field_round_trip(1, encode_utf8(word), seq![]);
    assert(inner + seq![] =~= inner);
}

/// The base64 digit of a six-bit value in the standard alphabet:
/// `A`-`Z`, `a`-`z`, `0`-`9`, `+`, `/`.
pub open spec fn base64_digit(v: nat) -> char {
    if v < 26 {
        (65 + v) as char
    } else if v < 52 {
        (97 + v - 26) as char
    } else if v < 62 {
        (48 + v - 52) as char
    } else if v == 62 {
        '+'
    } else {
        '/'
    }
}

/// Base64 in the standard alphabet with `=` padding (RFC 4648, section 4):
/// each three bytes become four digits, and a last group of one or two
/// bytes becomes two or three digits padded with `=` to four.
pub open spec fn base64_standard(bytes: Seq<u8>) -> Seq<char>
    decreases bytes.len(),
{
    if bytes.len() == 0 {
        seq![]
    } else if bytes.len() == 1 {
        let a = bytes[0] as nat;
        seq![base64_digit(a / 4), base64_digit((a % 4) * 16), '=', '=']
    } else if bytes.len() == 2 {
        let a = bytes[0] as nat;
        let b = bytes[1] as nat;
        seq![base64_digit(a / 4), base64_digit((a % 4) * 16 + b / 16), base64_digit((b % 16) * 4), '=']
    } else {
        let a = bytes[0] as nat;
        let b = bytes[1] as nat;
        let c = bytes[2] as nat;
        seq![
            base64_digit(a / 4),
            base64_digit((a % 4) * 16 + b / 16),
            base64_digit((b % 16) * 4 + c / 64),
            base64_digit(c % 64),
        ] + base64_standard(bytes.skip(3))
    }
}

/// `base64::engine::general_purpose::STANDARD.encode(bytes)`: the standard
/// alphabet with padding, as that engine documents. It panics when the
/// encoded length does not fit in `usize`, which the bound rules out.
#[verifier::external_body]
fn base64_standard_encode(bytes: &[u8]) -> (r: String)
    requires
        bytes@.len() <= usize::MAX / 4 * 3,
    ensures
        r@ == base64_standard(bytes@),
{
    base64::engine::general_purpose::STANDARD.encode(bytes)
}

/// The `settings` value of a request that stores the guild folder list: the
/// encoded settings in base64.
pub fn guild_folders_settings_payload(folders: &[GuildFolder]) -> (r: String)
    requires
        preloaded_guild_folders(folders@).len() <= usize::MAX / 4 * 3,
    ensures
        r@ == base64_standard(preloaded_guild_folders(folders@)),
{
    let bytes = encode_preloaded_guild_folders(folders);
    base64_standard_encode(bytes.as_slice())
}

proof fn lemma_utf8_len_bound(chars: Seq<char>)
    ensures
        encode_utf8(chars).len() <= 4 * chars.len(),
    decreases chars.len(),
{
    if chars.len() > 0 {
        lemma_utf8_len_bound(chars.drop_first());
    }
}

proof fn lemma_status_settings_len(status: PresenceStatus)
    ensures
        preloaded_status(status).len() < 64,
{
    reveal_strlit("online");
    reveal_strlit("idle");
    reveal_strlit("dnd");
    reveal_strlit("invisible");
    let g = presence_gateway_status(status);
    assert(g.len() <= 9);
    lemma_utf8_len_bound(g);
    let inner = string_wrapper(g);
    assert(varint(10) =~= seq![10u8]);
    assert(varint(encode_utf8(g).len()) =~= seq![encode_utf8(g).len() as u8]);
    assert(inner.len() <= 38);
    let middle = len_field(1, inner);
    assert(varint(inner.len()) =~= seq![inner.len() as u8]);
    assert(middle.len() <= 40);
    assert(varint(90) =~= seq![90u8]);
    assert(varint(middle.len()) =~= seq![middle.len() as u8]);
}

/// The `settings` value of a request that stores the presence status: the
/// encoded settings in base64.
pub fn status_settings_payload(status: PresenceStatus) -> (r: String)
    ensures
        r@ == base64_standard(preloaded_status(status)),
{
    let bytes = encode_preloaded_status(status);
    proof {
        lemma_status_settings_len(status);
    }
    base64_standard_encode(bytes.as_slice())
}

/// The JSON body `{"settings": PAYLOAD}` of a settings update.
pub open spec fn settings_body(payload: Seq<char>) -> Value {
    json_object(seq![("settings"@, json_string(payload))])
}

fn settings_body_of(payload: String) -> (r: Value)
    ensures
        r == settings_body(payload@),
{
    let key = "settings".to_string();
    let mut entries: Vec<(String, Value)> = Vec::new();
    entries.push((key, json_string_value(payload)));
    proof {
        assert(entries_view(entries@) =~= seq![("settings"@, json_string(payload@))]);
    }
    json_object_value(entries)
}

/// The request body that stores the guild folder list.
pub fn settings_proto_request_body(folders: &[GuildFolder]) -> (r: Value)
    requires
        preloaded_guild_folders(folders@).len() <= usize::MAX / 4 * 3,
    ensures
        r == settings_body(base64_standard(preloaded_guild_folders(folders@))),
{
    settings_body_of(guild_folders_settings_payload(folders))
}

/// The request body that stores the presence status.
pub fn status_settings_proto_request_body(status: PresenceStatus) -> (r: Value)
    ensures
        r == settings_body(base64_standard(preloaded_status(status))),
{
    settings_body_of(status_settings_payload(status))
}

} // verus!
