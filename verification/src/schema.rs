use crate::text::same_text;
use vstd::prelude::*;

verus! {

/// The type of an attribute's value.
#[derive(Debug, Clone, Copy, PartialEq, Eq, Structural)]
pub enum AttributeType {
    String,
    Int,
    UInt,
    Float,
    Bytes,
    Bool,
    Timestamp,
    Mapping,
    List,
    Unknown,
}

/// The well-known attributes that hold a timestamp.
pub open spec fn is_timestamp_attribute(selector: Seq<char>) -> bool {
    ||| selector == "request.time"@
}

/// The well-known attributes that hold text.
pub open spec fn is_string_attribute(selector: Seq<char>) -> bool {
    ||| selector == "request.id"@
    ||| selector == "request.protocol"@
    ||| selector == "request.scheme"@
    ||| selector == "request.host"@
    ||| selector == "request.method"@
    ||| selector == "request.path"@
    ||| selector == "request.url_path"@
    ||| selector == "request.query"@
    ||| selector == "request.referer"@
    ||| selector == "request.useragent"@
    ||| selector == "request.body"@
    ||| selector == "source.address"@
    ||| selector == "source.service"@
    ||| selector == "source.principal"@
    ||| selector == "source.certificate"@
    ||| selector == "destination.address"@
    ||| selector == "destination.service"@
    ||| selector == "destination.principal"@
    ||| selector == "destination.certificate"@
    ||| selector == "connection.requested_server_name"@
    ||| selector == "connection.tls_session.sni"@
    ||| selector == "connection.tls_version"@
    ||| selector == "connection.subject_local_certificate"@
    ||| selector == "connection.subject_peer_certificate"@
    ||| selector == "connection.dns_san_local_certificate"@
    ||| selector == "connection.dns_san_peer_certificate"@
    ||| selector == "connection.uri_san_local_certificate"@
    ||| selector == "connection.uri_san_peer_certificate"@
    ||| selector == "connection.sha256_peer_certificate_digest"@
    ||| selector == "ratelimit.domain"@
}

/// The well-known attributes that hold a signed integer.
pub open spec fn is_int_attribute(selector: Seq<char>) -> bool {
    ||| selector == "request.size"@
    ||| selector == "source.port"@
    ||| selector == "destination.port"@
    ||| selector == "connection.id"@
    ||| selector == "ratelimit.hits_addend"@
}

/// The well-known attributes that hold a map.
pub open spec fn is_map_attribute(selector: Seq<char>) -> bool {
    ||| selector == "request.headers"@
    ||| selector == "request.context_extensions"@
    ||| selector == "source.labels"@
    ||| selector == "destination.labels"@
    ||| selector == "filter_state"@
}

/// The well-known attributes that hold a boolean.
pub open spec fn is_bool_attribute(selector: Seq<char>) -> bool {
    ||| selector == "connection.mtls"@
}

/// The well-known attributes that hold raw bytes.
pub open spec fn is_bytes_attribute(selector: Seq<char>) -> bool {
    ||| selector == "request.raw_body"@
    ||| selector == "auth.identity"@
}

/// The type that the fixed table gives to a selector: `None` for every selector
/// outside the table.
pub open spec fn type_of_spec(selector: Seq<char>) -> Option<AttributeType> {
    if is_timestamp_attribute(selector) {
        Some(AttributeType::Timestamp)
    } else if is_string_attribute(selector) {
        Some(AttributeType::String)
    } else if is_int_attribute(selector) {
        Some(AttributeType::Int)
    } else if is_map_attribute(selector) {
        Some(AttributeType::Mapping)
    } else if is_bool_attribute(selector) {
        Some(AttributeType::Bool)
    } else if is_bytes_attribute(selector) {
        Some(AttributeType::Bytes)
    } else {
        None
    }
}

fn in_timestamp_attribute(path: &str) -> (found: bool)
    ensures
        found == is_timestamp_attribute(path@),
{
    same_text(path, "request.time")
}

fn in_string_attribute(path: &str) -> (found: bool)
    ensures
        found == is_string_attribute(path@),
{
    same_text(path, "request.id")
        || same_text(path, "request.protocol")
        || same_text(path, "request.scheme")
        || same_text(path, "request.host")
        || same_text(path, "request.method")
        || same_text(path, "request.path")
        || same_text(path, "request.url_path")
        || same_text(path, "request.query")
        || same_text(path, "request.referer")
        || same_text(path, "request.useragent")
        || same_text(path, "request.body")
        || same_text(path, "source.address")
        || same_text(path, "source.service")
        || same_text(path, "source.principal")
        || same_text(path, "source.certificate")
        || same_text(path, "destination.address")
        || same_text(path, "destination.service")
        || same_text(path, "destination.principal")
        || same_text(path, "destination.certificate")
        || same_text(path, "connection.requested_server_name")
        || same_text(path, "connection.tls_session.sni")
        || same_text(path, "connection.tls_version")
        || same_text(path, "connection.subject_local_certificate")
        || same_text(path, "connection.subject_peer_certificate")
        || same_text(path, "connection.dns_san_local_certificate")
        || same_text(path, "connection.dns_san_peer_certificate")
        || same_text(path, "connection.uri_san_local_certificate")
        || same_text(path, "connection.uri_san_peer_certificate")
        || same_text(path, "connection.sha256_peer_certificate_digest")
        || same_text(path, "ratelimit.domain")
}

fn in_int_attribute(path: &str) -> (found: bool)
    ensures
        found == is_int_attribute(path@),
{
    same_text(path, "request.size")
        || same_text(path, "source.port")
        || same_text(path, "destination.port")
        || same_text(path, "connection.id")
        || same_text(path, "ratelimit.hits_addend")
}

fn in_map_attribute(path: &str) -> (found: bool)
    ensures
        found == is_map_attribute(path@),
{
    same_text(path, "request.headers")
        || same_text(path, "request.context_extensions")
        || same_text(path, "source.labels")
        || same_text(path, "destination.labels")
        || same_text(path, "filter_state")
}

fn in_bool_attribute(path: &str) -> (found: bool)
    ensures
        found == is_bool_attribute(path@),
{
    same_text(path, "connection.mtls")
}

fn in_bytes_attribute(path: &str) -> (found: bool)
    ensures
        found == is_bytes_attribute(path@),
{
    same_text(path, "request.raw_body")
        || same_text(path, "auth.identity")
}

/// Looks a selector up in the fixed table of well-known attributes.
pub fn type_of(path: &str) -> (found: Option<AttributeType>)
    ensures
        found == type_of_spec(path@),
{
    if in_timestamp_attribute(path) {
        Some(AttributeType::Timestamp)
    } else if in_string_attribute(path) {
        Some(AttributeType::String)
    } else if in_int_attribute(path) {
        Some(AttributeType::Int)
    } else if in_map_attribute(path) {
        Some(AttributeType::Mapping)
    } else if in_bool_attribute(path) {
        Some(AttributeType::Bool)
    } else if in_bytes_attribute(path) {
        Some(AttributeType::Bytes)
    } else {
        None
    }
}

} // verus!
