use vstd::prelude::*;

use crate::attributes::{scheme_of, CompressionScheme, ElementType};

verus! {

/// Declares serde_json's document type, carried opaquely.
#[verifier::external_type_specification]
#[verifier::external_body]
pub struct ExValue(serde_json::Value);

/// Whether `serde_json::from_slice` reads the bytes as a JSON document.
pub uninterp spec fn json_parses(b: Seq<u8>) -> bool;

/// What `serde_json::from_slice` makes of the bytes as n5 dataset
/// attributes: dimensions, block size, element type and compression scheme,
/// or `None` where they are no such document.
pub uninterp spec fn attributes_document(b: Seq<u8>) -> Option<(Seq<u64>, Seq<u32>, ElementType, CompressionScheme)>;

/// For bytes that `serde_json::from_slice` reads as a JSON document: the
/// member under `key` (`None` where there is none, and `Some(None)` where it
/// is not a string).
pub uninterp spec fn json_string_member(b: Seq<u8>, key: Seq<char>) -> Option<Option<Seq<char>>>;

/// The view of a member that may be absent or not be a string.
pub open spec fn member_view(member: Option<Option<String>>) -> Option<Option<Seq<char>>> {
    match member {
        None => None,
        Some(None) => Some(None),
        Some(Some(s)) => Some(Some(s@)),
    }
}

/// Relies on `serde_json::from_slice` into a `serde_json::Value`: it
/// succeeds exactly on JSON documents.
#[verifier::external_body]
pub(crate) fn parse_json(body: &[u8]) -> (r: Option<serde_json::Value>)
    ensures
        r is Some <==> json_parses(body@),
{
    serde_json::from_slice(body).ok()
}

/// Relies on `serde_json::from_slice` into a `serde_json::Value`, then
/// `Value::get` and `Value::as_str`: the string member under `key`, where the
/// bytes are a JSON document.
#[verifier::external_body]
pub(crate) fn parse_string_member(body: &[u8], key: &str) -> (r: Option<Option<Option<String>>>)
    ensures
        r is Some <==> json_parses(body@),
        r matches Some(m) ==> member_view(m) == json_string_member(body@, key@),
{
    let doc: serde_json::Value = serde_json::from_slice(body).ok()?;
    Some(doc.get(key).map(|v| v.as_str().map(|t| t.to_string())))
}

/// Relies on `serde_json::from_slice` into `n5::DatasetAttributes`, whose
/// parts are handed out.
#[verifier::external_body]
pub(crate) fn parse_attributes(body: &[u8]) -> (r: Option<(Vec<u64>, Vec<u32>, n5::DataType, n5::compression::CompressionType)>)
    ensures
        match r {
            Some(t) => attributes_document(body@) == Some((t.0@, t.1@, ElementType::from_n5_spec(t.2), scheme_of(t.3))),
            None => attributes_document(body@) is None,
        },
{
    let a: n5::DatasetAttributes = serde_json::from_slice(body).ok()?;
    let dt = *a.get_data_type();
    Some((a.get_dimensions().to_vec(), a.get_block_size().to_vec(), dt, a.get_compression().clone()))
}

} // verus!
