//! How a witness leaves the process: as JSON, and compressed.

use vstd::prelude::*;
use crate::bytes;
use crate::bytes::Bytes;
use crate::text;
use crate::witness::ExecutionWitness;

verus! {

/// An I/O error.
#[verifier::external_type_specification]
#[verifier::external_body]
pub struct ExIoError(std::io::Error);

/// A byte string as a JSON string of hexadecimal digits after `0x`.
pub open spec fn json_bytes(bytes: Seq<u8>) -> Seq<char> {
    seq!['"', '0', 'x'] + text::hex_digits(bytes) + seq!['"']
}

/// JSON strings with commas between them.
pub open spec fn json_items(list: Seq<Seq<u8>>) -> Seq<char>
    decreases list.len(),
{
    if list.len() == 0 {
        Seq::empty()
    } else if list.len() == 1 {
        json_bytes(list[0])
    } else {
        json_items(list.drop_last()) + seq![','] + json_bytes(list.last())
    }
}

/// A member of a JSON object: a name, and an array of byte strings.
pub open spec fn json_member(name: Seq<char>, list: Seq<Bytes>) -> Seq<char> {
    seq!['"'] + name + seq!['"', ':', '['] + json_items(bytes::contents(list)) + seq![']']
}

/// A witness as a JSON object.
pub open spec fn witness_json(witness: ExecutionWitness) -> Seq<char> {
    seq!['{'] + json_member("state"@, witness.state@) + seq![','] + json_member(
        "codes"@,
        witness.codes@,
    ) + seq![','] + json_member("keys"@, witness.keys@) + seq![','] + json_member(
        "headers"@,
        witness.headers@,
    ) + seq!['}']
}

/// ASCII characters as bytes.
pub open spec fn ascii(chars: Seq<char>) -> Seq<u8> {
    chars.map_values(|c: char| c as u8)
}

/// `serde_json::to_vec` of an `alloy_rpc_types_debug::ExecutionWitness`: a compact JSON object with
/// the members `state`, `codes`, `keys` and `headers`, each an array of prefixed lower-case
/// hexadecimal strings. Such a value holds nothing that cannot be written, so that it succeeds.
#[verifier::external_body]
pub(crate) fn witness_to_json(witness: ExecutionWitness) -> (r: Result<Vec<u8>, serde_json::Error>)
    ensures
        r is Ok,
        r->Ok_0@ == ascii(witness_json(witness)),
{
    serde_json::to_vec(&alloy_rpc_types_debug::ExecutionWitness {
        state: witness.state.into_iter().map(alloy_primitives::Bytes::from).collect(),
        codes: witness.codes.into_iter().map(alloy_primitives::Bytes::from).collect(),
        keys: witness.keys.into_iter().map(alloy_primitives::Bytes::from).collect(),
        headers: witness.headers.into_iter().map(alloy_primitives::Bytes::from).collect(),
    })
}

/// The zstd frame that holds `data`, compressed at a level.
pub uninterp spec fn zstd_frame(data: Seq<u8>, level: int) -> Seq<u8>;

/// `zstd::encode_all`: where it succeeds, the zstd frame that holds the data, compressed at the
/// level. Whether it succeeds is not said: it may run out of memory.
#[verifier::external_body]
pub(crate) fn zstd_encode(data: &[u8], level: i32) -> (r: Result<Vec<u8>, std::io::Error>)
    ensures
        r is Ok ==> r->Ok_0@ == zstd_frame(data@, level as int),
{
    zstd::encode_all(data, level)
}

/// A serialized witness is an object of four members, in this order: the trie nodes, the codes, the keys
/// and the headers, each under its own name as an array.
pub proof fn a_witness_is_written_list_by_list(witness: ExecutionWitness)
    ensures
        witness_json(witness) == seq!['{', '"'] + "state"@ + seq!['"', ':', '['] + json_items(
            bytes::contents(witness.state@),
        ) + seq![']', ',', '"'] + "codes"@ + seq!['"', ':', '['] + json_items(
            bytes::contents(witness.codes@),
        ) + seq![']', ',', '"'] + "keys"@ + seq!['"', ':', '['] + json_items(
            bytes::contents(witness.keys@),
        ) + seq![']', ',', '"'] + "headers"@ + seq!['"', ':', '['] + json_items(
            bytes::contents(witness.headers@),
        ) + seq![']', '}'],
{
    assert(witness_json(witness) =~= seq!['{', '"'] + "state"@ + seq!['"', ':', '['] + json_items(
        bytes::contents(witness.state@),
    ) + seq![']', ',', '"'] + "codes"@ + seq!['"', ':', '['] + json_items(
        bytes::contents(witness.codes@),
    ) + seq![']', ',', '"'] + "keys"@ + seq!['"', ':', '['] + json_items(
        bytes::contents(witness.keys@),
    ) + seq![']', ',', '"'] + "headers"@ + seq!['"', ':', '['] + json_items(
        bytes::contents(witness.headers@),
    ) + seq![']', '}']);
}

/// The items of an array are strings of `0x` and the bytes in hexadecimal, with a comma before each but
/// the first.
pub proof fn items_are_hexadecimal_strings(list: Seq<Seq<u8>>, item: Seq<u8>)
    ensures
        json_items(Seq::<Seq<u8>>::empty()).len() == 0,
        json_items(seq![item]) == seq!['"', '0', 'x'] + text::hex_digits(item) + seq!['"'],
        list.len() > 0 ==> json_items(list.push(item)) == json_items(list) + seq![',', '"', '0', 'x']
            + text::hex_digits(item) + seq!['"'],
{
    if list.len() > 0 {
        assert(list.push(item).drop_last() =~= list);
        assert(json_items(list.push(item)) =~= json_items(list) + seq![',', '"', '0', 'x']
            + text::hex_digits(item) + seq!['"']);
    }
}

/// A text is written one byte for each character, the byte of its number.
pub proof fn characters_are_written_as_bytes(chars: Seq<char>)
    ensures
        ascii(chars).len() == chars.len(),
        forall|i: int| 0 <= i < chars.len() ==> #[trigger] ascii(chars)[i] == chars[i] as u8,
{
}

} // verus!
