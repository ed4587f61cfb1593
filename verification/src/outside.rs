//! The calls that the library makes into other crates and into parts of the
//! standard library without a specification. Each contract here is believed,
//! not proved.

use vstd::prelude::*;
use vstd::string::*;
use vstd::utf8::*;

use crate::text;

verus! {

/// A hexadecimal digit of either case.
pub open spec fn is_hex_digit(c: char) -> bool {
    '0' <= c <= '9' || 'a' <= c <= 'f' || 'A' <= c <= 'F'
}

/// What a hexadecimal digit counts.
pub open spec fn hex_digit_value(c: char) -> int {
    if '0' <= c <= '9' {
        c as int - '0' as int
    } else if 'a' <= c <= 'f' {
        c as int - 'a' as int + 10
    } else {
        c as int - 'A' as int + 10
    }
}

/// The lower-case digit that counts `v`.
pub open spec fn hex_digit(v: int) -> char {
    if v < 10 {
        ('0' as int + v) as char
    } else {
        ('a' as int + (v - 10)) as char
    }
}

/// The bytes in lower-case hexadecimal, two digits each.
pub open spec fn hex_text(bytes: Seq<u8>) -> Seq<char> {
    Seq::new(
        2 * bytes.len(),
        |i: int|
            if i % 2 == 0 {
                hex_digit(bytes[i / 2] as int / 16)
            } else {
                hex_digit(bytes[i / 2] as int % 16)
            },
    )
}

/// The bytes that a hexadecimal text stands for, two digits each.
pub open spec fn hex_bytes(s: Seq<char>) -> Option<Seq<u8>> {
    if s.len() % 2 == 0 && forall|i: int| 0 <= i < s.len() ==> is_hex_digit(#[trigger] s[i]) {
        Some(
            Seq::new(
                (s.len() / 2) as nat,
                |i: int| (16 * hex_digit_value(s[2 * i]) + hex_digit_value(s[2 * i + 1])) as u8,
            ),
        )
    } else {
        None
    }
}

/// Reading back what was written in hexadecimal gives the bytes again.
pub proof fn law_hex_round_trip(bytes: Seq<u8>)
    ensures
        hex_bytes(hex_text(bytes)) == Some(bytes),
{
    let s = hex_text(bytes);
    assert forall|i: int| 0 <= i < s.len() implies is_hex_digit(#[trigger] s[i]) by {
        assert(0 <= bytes[i / 2] as int / 16 < 16);
        assert(0 <= bytes[i / 2] as int % 16 < 16);
    }
    let back = hex_bytes(s).unwrap();
    assert forall|i: int| 0 <= i < bytes.len() implies back[i] == #[trigger] bytes[i] by {
        let v = bytes[i] as int;
        assert((2 * i) / 2 == i && (2 * i) % 2 == 0);
        assert((2 * i + 1) / 2 == i && (2 * i + 1) % 2 == 1);
        assert(s[2 * i] == hex_digit(v / 16));
        assert(s[2 * i + 1] == hex_digit(v % 16));
        assert(16 * (v / 16) + v % 16 == v);
    }
    assert(back =~= bytes);
}

/// `hex::encode`: the bytes of a key in lower-case hexadecimal.
#[verifier::external_body]
pub(crate) fn hex_encode(bytes: &[u8; 33]) -> (s: String)
    ensures
        s@ == hex_text(bytes@),
{
    hex::encode(bytes)
}

/// `hex::decode`: the bytes that a text stands for, where it is an even number
/// of hexadecimal digits of either case; nothing where it is not.
#[verifier::external_body]
pub(crate) fn hex_decode(s: &str) -> (bytes: Option<Vec<u8>>)
    ensures
        match bytes {
            Some(b) => hex_bytes(s@) == Some(b@),
            None => hex_bytes(s@) is None,
        },
{
    hex::decode(s).ok()
}

/// The compressed form of the secp256k1 public key that the bytes stand for,
/// where they stand for one: what `secp256k1::PublicKey::from_slice` reads.
pub uninterp spec fn compressed_public_key(bytes: Seq<u8>) -> Option<Seq<u8>>;

/// `secp256k1::PublicKey::from_slice`: the key that the bytes stand for, given
/// in the compressed form of `PublicKey::serialize`; nothing where they stand
/// for none.
#[verifier::external_body]
pub(crate) fn read_public_key(bytes: &[u8]) -> (key: Option<[u8; 33]>)
    ensures
        match key {
            Some(k) => compressed_public_key(bytes@) == Some(k@),
            None => compressed_public_key(bytes@) is None,
        },
{
    secp256k1::PublicKey::from_slice(bytes).ok().map(|key| key.serialize())
}

/// What `serde_json::from_slice` reads from the bytes as a list of strings,
/// where they are one.
pub uninterp spec fn json_texts(bytes: Seq<u8>) -> Option<Seq<Seq<char>>>;

/// `serde_json::from_slice` for a list of strings; nothing where the bytes are
/// not one. Bytes that are not there are not one.
#[verifier::external_body]
pub(crate) fn read_json_texts(bytes: &[u8]) -> (list: Option<Vec<String>>)
    ensures
        match list {
            Some(l) => json_texts(bytes@) == Some(text::texts(l@)),
            None => json_texts(bytes@) is None,
        },
        bytes@.len() == 0 ==> list is None,
{
    serde_json::from_slice(bytes).ok()
}

/// The JSON that `serde_json::to_vec` writes for a list of strings.
pub uninterp spec fn json_of_texts(list: Seq<Seq<char>>) -> Option<Seq<u8>>;

/// `serde_json::to_vec` for a list of strings; nothing where it fails.
#[verifier::external_body]
pub(crate) fn write_json_texts(list: &Vec<String>) -> (bytes: Option<Vec<u8>>)
    ensures
        match bytes {
            Some(b) => json_of_texts(text::texts(list@)) == Some(b@),
            None => json_of_texts(text::texts(list@)) is None,
        },
{
    serde_json::to_vec(list).ok()
}

/// What the fields of one object say.
pub open spec fn field_texts(fields: Seq<(String, String)>) -> Seq<(Seq<char>, Seq<char>)> {
    fields.map_values(|f: (String, String)| (f.0@, f.1@))
}

/// What the fields of several objects say.
pub open spec fn object_texts(objects: Seq<Vec<(String, String)>>) -> Seq<
    Seq<(Seq<char>, Seq<char>)>,
> {
    objects.map_values(|o: Vec<(String, String)>| field_texts(o@))
}

/// The JSON that `serde_json::to_vec` writes for a list of objects, each the
/// `serde_json::Map` of its fields, all of them strings.
pub uninterp spec fn json_of_objects(objects: Seq<Seq<(Seq<char>, Seq<char>)>>) -> Option<Seq<u8>>;

/// `serde_json::to_vec` for a list of objects with string fields; nothing where
/// it fails.
#[verifier::external_body]
pub(crate) fn write_json_objects(objects: Vec<Vec<(String, String)>>) -> (bytes: Option<Vec<u8>>)
    ensures
        match bytes {
            Some(b) => json_of_objects(object_texts(objects@)) == Some(b@),
            None => json_of_objects(object_texts(objects@)) is None,
        },
{
    let field = |(name, value): (String, String)| (name, serde_json::Value::String(value));
    let object = |fields: Vec<(String, String)>| fields.into_iter().map(field).collect();
    let list: Vec<serde_json::Map<String, serde_json::Value>> =
        objects.into_iter().map(object).collect();
    serde_json::to_vec(&list).ok()
}

/// `std::str::from_utf8`: the text that the bytes encode, where they are valid
/// UTF-8.
#[verifier::external_body]
pub(crate) fn read_utf8(bytes: &[u8]) -> (t: Option<&str>)
    ensures
        match t {
            Some(t) => valid_utf8(bytes@) && t@ == decode_utf8(bytes@),
            None => !valid_utf8(bytes@),
        },
{
    std::str::from_utf8(bytes).ok()
}

} // verus!
