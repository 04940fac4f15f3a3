//! The snapshot of a pull: where it is kept and what it holds.
//!
//! The snapshot file of an image lies under `<base>/docker/` and is named by
//! the percent-encoded image reference, so that every reference has a file
//! of its own.

use crate::codec::{is_writing_of, json_pretty, pretty_json, JsonError};
use crate::json::JsonModel;
use crate::progress::ProgressDocument;
use crate::text::{contains_text, text_contains};
use vstd::prelude::*;
use vstd::string::*;
use vstd::utf8::encode_utf8;

verus! {

/// An image reference with its tag: a reference that holds no colon gets the
/// tag `latest`.
pub open spec fn normalized_reference(image: Seq<char>) -> Seq<char> {
    if contains_text(image, ":"@) {
        image
    } else {
        image + ":latest"@
    }
}

/// Whether a byte is an ASCII letter or digit.
pub open spec fn is_alphanumeric(byte: u8) -> bool {
    ||| 0x30 <= byte <= 0x39
    ||| 0x41 <= byte <= 0x5a
    ||| 0x61 <= byte <= 0x7a
}

/// The upper-case hexadecimal digit for a value below sixteen.
pub open spec fn upper_hex(value: u8) -> char {
    if value < 10 {
        (0x30 + value) as u8 as char
    } else {
        (0x41 + value - 10) as u8 as char
    }
}

/// One byte, percent-encoded: letters and digits stand for themselves, every
/// other byte becomes `%` and its two hexadecimal digits.
pub open spec fn encoded_byte(byte: u8) -> Seq<char> {
    if is_alphanumeric(byte) {
        seq![byte as char]
    } else {
        seq!['%', upper_hex(byte / 16), upper_hex(byte % 16)]
    }
}

/// A run of bytes, percent-encoded byte by byte.
pub open spec fn percent_encoded(bytes: Seq<u8>) -> Seq<char>
    decreases bytes.len(),
{
    if bytes.len() == 0 {
        Seq::empty()
    } else {
        encoded_byte(bytes[0]) + percent_encoded(bytes.drop_first())
    }
}

/// The value of an upper-case hexadecimal digit.
pub open spec fn upper_hex_value(digit: char) -> int {
    if '0' <= digit <= '9' {
        digit as int - 0x30
    } else {
        digit as int - 0x41 + 10
    }
}

/// The bytes that a percent-encoded text stands for: `%` and two digits are
/// one byte, any other character is the byte of its own.
pub open spec fn percent_decoded(text: Seq<char>) -> Seq<u8>
    decreases text.len(),
{
    if text.len() == 0 {
        Seq::empty()
    } else if text[0] == '%' && text.len() >= 3 {
        seq![(16 * upper_hex_value(text[1]) + upper_hex_value(text[2])) as u8] + percent_decoded(
            text.skip(3),
        )
    } else {
        seq![text[0] as u8] + percent_decoded(text.skip(1))
    }
}

/// The directory under `base` that holds the snapshot files.
pub open spec fn snapshot_directory_of(base: Seq<char>) -> Seq<char> {
    base + "/docker/"@
}

/// The snapshot file under `base` for an image reference.
pub open spec fn snapshot_path_of(base: Seq<char>, reference: Seq<char>) -> Seq<char> {
    snapshot_directory_of(base) + percent_encoded(encode_utf8(reference)) + ".json"@
}

/// The snapshot of a document: its entries as one indented JSON object, or
/// nothing where that object cannot be written.
pub open spec fn snapshot_of(document: Map<Seq<char>, JsonModel>) -> Option<Seq<char>> {
    json_pretty(JsonModel::Object(document))
}

/// `percent_encoding::utf8_percent_encode` with the set `NON_ALPHANUMERIC`,
/// collected into a string. Claimed: the result is the UTF-8 bytes of the
/// text, each ASCII letter or digit kept and every other byte written as `%`
/// and two upper-case hexadecimal digits.
#[verifier::external_body]
fn utf8_percent_encode(text: &str) -> (encoded: String)
    ensures
        encoded@ == percent_encoded(encode_utf8(text@)),
{
    percent_encoding::utf8_percent_encode(text, percent_encoding::NON_ALPHANUMERIC).to_string()
}

/// Gives an image reference its tag: `latest`, unless the reference holds a
/// colon already.
pub fn normalize_reference(image: &str) -> (reference: String)
    ensures
        reference@ == normalized_reference(image@),
{
    let mut reference = String::from_str(image);
    if !text_contains(image, ":") {
        reference.append(":latest");
    }
    reference
}

/// Percent-encodes an image reference for use as a file name.
pub fn encode_reference(reference: &str) -> (encoded: String)
    ensures
        encoded@ == percent_encoded(encode_utf8(reference@)),
{
    utf8_percent_encode(reference)
}

/// The directory under `base` that holds the snapshot files.
pub fn snapshot_directory(base: &str) -> (directory: String)
    ensures
        directory@ == snapshot_directory_of(base@),
{
    String::from_str(base).concat("/docker/")
}

/// The snapshot file under `base` for an image reference.
pub fn snapshot_path(base: &str, reference: &str) -> (path: String)
    ensures
        path@ == snapshot_path_of(base@, reference@),
{
    let encoded = encode_reference(reference);
    let mut path = snapshot_directory(base);
    path.append(encoded.as_str());
    path.append(".json");
    path
}

/// Writes the document out as it is to stand in the snapshot file: the
/// indented JSON text of the document, and an error exactly where that text
/// cannot be written.
pub fn snapshot_text(document: &ProgressDocument) -> (written: Result<String, JsonError>)
    ensures
        is_writing_of(json_pretty(document.json()), written),
        document.wf() ==> is_writing_of(snapshot_of(document@), written),
{
    proof {
        if document.wf() {
            document.lemma_wf();
        }
    }
    pretty_json(document.as_json())
}

/// Writing a document twice, with nothing merged in between, gives the same
/// twice: both times the same text, or both times an error.
pub proof fn lemma_snapshot_repeatable(
    document: ProgressDocument,
    first: Result<String, JsonError>,
    second: Result<String, JsonError>,
)
    requires
        is_writing_of(json_pretty(document.json()), first),
        is_writing_of(json_pretty(document.json()), second),
    ensures
        first is Ok <==> second is Ok,
        first matches Ok(one) ==> second matches Ok(other) && one@ == other@,
{
}

/// Two well-formed documents with the same entries have the same snapshot.
pub proof fn lemma_snapshot_by_entries(first: ProgressDocument, second: ProgressDocument)
    requires
        first.wf(),
        second.wf(),
        first@ == second@,
    ensures
        json_pretty(first.json()) == json_pretty(second.json()),
        json_pretty(first.json()) == snapshot_of(first@),
{
    first.lemma_wf();
    second.lemma_wf();
}

/// Percent-encoding loses nothing: decoding gives the bytes back.
pub proof fn lemma_percent_encoding_reversible(bytes: Seq<u8>)
    ensures
        percent_decoded(percent_encoded(bytes)) == bytes,
    decreases bytes.len(),
{
    if bytes.len() > 0 {
        let first = bytes[0];
        let rest = percent_encoded(bytes.drop_first());
        let text = encoded_byte(first) + rest;
        lemma_percent_encoding_reversible(bytes.drop_first());
        if is_alphanumeric(first) {
            assert(text.skip(1) =~= rest);
        } else {
            assert(text.skip(3) =~= rest);
        }
    }
}

/// Every image reference has a snapshot file of its own: two references
/// with the same file under one base are the same reference.
pub proof fn lemma_snapshot_path_injective(base: Seq<char>, first: Seq<char>, second: Seq<char>)
    requires
        snapshot_path_of(base, first) == snapshot_path_of(base, second),
    ensures
        first == second,
{
    let front = snapshot_directory_of(base);
    let back = ".json"@;
    let one = percent_encoded(encode_utf8(first));
    let two = percent_encoded(encode_utf8(second));
    let path = snapshot_path_of(base, first);
    assert(path.len() == front.len() + one.len() + back.len());
    assert(path.len() == front.len() + two.len() + back.len());
    assert(one =~= path.subrange(front.len() as int, (front.len() + one.len()) as int));
    assert(two =~= path.subrange(front.len() as int, (front.len() + two.len()) as int));
    lemma_percent_encoding_reversible(encode_utf8(first));
    lemma_percent_encoding_reversible(encode_utf8(second));
    vstd::utf8::encode_utf8_decode_utf8(first);
    vstd::utf8::encode_utf8_decode_utf8(second);
}

} // verus!
