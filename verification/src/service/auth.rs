use crate::attribute::{decode, decode_spec, decode_text, decode_text_spec, TypedValue, TypedValueModel};
use crate::schema::AttributeType;
use vstd::prelude::*;
use vstd::slice::slice_to_vec;

verus! {

/// The attributes of a request that go into a check request, each as the host
/// handed it over, or `None` where the host does not have it.
#[derive(Debug, Clone)]
pub struct RequestAttributes {
    pub destination_address: Option<Vec<u8>>,
    pub destination_port: Option<Vec<u8>>,
    pub source_address: Option<Vec<u8>>,
    pub source_port: Option<Vec<u8>>,
    pub host: Option<Vec<u8>>,
    pub method: Option<Vec<u8>>,
    pub scheme: Option<Vec<u8>>,
    pub path: Option<Vec<u8>>,
    pub protocol: Option<Vec<u8>>,
    pub time: Option<Vec<u8>>,
    pub headers: Vec<(String, String)>,
}

/// One end of a connection.
#[derive(Debug, Clone)]
pub struct Peer {
    pub address: String,
    pub port: u32,
}

/// A point in time as a check request gives it.
#[derive(Debug, Clone, Copy, PartialEq, Eq, Structural)]
pub struct Timestamp {
    pub seconds: i64,
    pub nanos: i32,
}

/// The HTTP side of a request.
#[derive(Debug, Clone)]
pub struct HttpRequest {
    pub host: String,
    pub method: String,
    pub scheme: String,
    pub path: String,
    pub protocol: String,
    pub headers: Vec<(String, String)>,
}

/// A request as the authorization service is asked about it.
#[derive(Debug, Clone)]
pub struct Request {
    pub time: Timestamp,
    pub http: HttpRequest,
}

/// What the authorization service is asked.
#[derive(Debug, Clone)]
pub struct CheckRequest {
    pub request: Request,
    pub destination: Peer,
    pub source: Peer,
    pub context_extensions: Vec<(String, String)>,
}

/// The text of an attribute: empty where the attribute is absent or is not
/// UTF-8.
pub open spec fn text_or_empty(attribute: Option<Vec<u8>>) -> Seq<char> {
    match attribute {
        Some(raw) => match decode_text_spec(raw@) {
            Ok(text) => text,
            Err(_) => Seq::empty(),
        },
        None => Seq::empty(),
    }
}

/// The port that an attribute holds: the low 32 bits of its integer, and 0
/// where the attribute is absent or is not 8 bytes long.
pub open spec fn port_or_zero(attribute: Option<Vec<u8>>) -> u32 {
    match attribute {
        Some(raw) => match decode_spec(AttributeType::Int, raw@) {
            Ok(TypedValueModel::Int(number)) => number as u32,
            _ => 0,
        },
        None => 0,
    }
}

/// The second within its minute and the nanosecond within its second of the
/// instant that lies `nanos` nanoseconds after the Unix epoch.
pub open spec fn clock_reading(nanos: i64) -> Timestamp {
    Timestamp {
        seconds: ((nanos as int / 1_000_000_000) % 60) as i64,
        nanos: (nanos as int % 1_000_000_000) as i32,
    }
}

/// The time that an attribute holds: the clock reading of its instant, and
/// zero where the attribute is absent or is not 8 bytes long.
pub open spec fn time_or_zero(attribute: Option<Vec<u8>>) -> Timestamp {
    match attribute {
        Some(raw) => match decode_spec(AttributeType::Timestamp, raw@) {
            Ok(TypedValueModel::Timestamp(nanos)) => clock_reading(nanos),
            _ => Timestamp { seconds: 0, nanos: 0 },
        },
        None => Timestamp { seconds: 0, nanos: 0 },
    }
}

fn text_of(attribute: &Option<Vec<u8>>) -> (text: String)
    ensures
        text@ == text_or_empty(*attribute),
{
    match attribute {
        Some(raw) => match decode_text(raw.as_slice()) {
            Ok(text) => text,
            Err(_) => String::new(),
        },
        None => String::new(),
    }
}

fn port_of(attribute: &Option<Vec<u8>>) -> (port: u32)
    ensures
        port == port_or_zero(*attribute),
{
    match attribute {
        Some(raw) => match decode(AttributeType::Int, slice_to_vec(raw.as_slice())) {
            Ok(TypedValue::Int(number)) => #[verifier::truncate]
            (number as u32),
            _ => 0,
        },
        None => 0,
    }
}

/// The second within its minute and the nanosecond within its second of an
/// instant given in nanoseconds since the Unix epoch.
pub fn read_clock(nanos: i64) -> (reading: Timestamp)
    ensures
        reading == clock_reading(nanos),
{
    if nanos >= 0 {
        let seconds: i64 = (nanos / 1_000_000_000) % 60;
        let rest: i64 = nanos % 1_000_000_000;
        Timestamp { seconds, nanos: rest as i32 }
    } else {
        // -(nanos + 1) is the distance below -1, which is never negative
        let below: i64 = -(nanos + 1);
        let seconds_below: i64 = below / 1_000_000_000;
        let seconds: i64 = 59 - seconds_below % 60;
        let rest: i64 = 999_999_999 - below % 1_000_000_000;
        Timestamp { seconds, nanos: rest as i32 }
    }
}

fn time_of(attribute: &Option<Vec<u8>>) -> (time: Timestamp)
    ensures
        time == time_or_zero(*attribute),
{
    match attribute {
        Some(raw) => match decode(AttributeType::Timestamp, slice_to_vec(raw.as_slice())) {
            Ok(TypedValue::Timestamp(nanos)) => read_clock(nanos),
            _ => Timestamp { seconds: 0, nanos: 0 },
        },
        None => Timestamp { seconds: 0, nanos: 0 },
    }
}

/// The authorization service: where it is reached, and the metadata that goes
/// out with every call.
#[derive(Debug, Clone)]
pub struct AuthService {
    endpoint: String,
    metadata: Vec<(String, Vec<u8>)>,
}

/// What a list of headers and values holds.
pub open spec fn metadata_views(metadata: Seq<(String, Vec<u8>)>) -> Seq<(Seq<char>, Seq<u8>)> {
    Seq::new(metadata.len(), |i: int| (metadata[i].0@, metadata[i].1@))
}

/// What a list of borrowed headers and values holds.
pub open spec fn borrowed_views(metadata: Seq<(&str, &[u8])>) -> Seq<(Seq<char>, Seq<u8>)> {
    Seq::new(metadata.len(), |i: int| (metadata[i].0@, metadata[i].1@))
}

impl AuthService {
    /// Where the service is reached.
    pub closed spec fn spec_endpoint(&self) -> Seq<char> {
        self.endpoint@
    }

    /// The headers that go out with every call, each with its value.
    pub closed spec fn spec_metadata(&self) -> Seq<(Seq<char>, Seq<u8>)> {
        metadata_views(self.metadata@)
    }

    /// A service at an endpoint, with its own copy of the metadata.
    pub fn new(endpoint: &str, metadata: Vec<(&str, &[u8])>) -> (service: AuthService)
        ensures
            service.spec_endpoint() == endpoint@,
            service.spec_metadata() == borrowed_views(metadata@),
    {
        let mut owned: Vec<(String, Vec<u8>)> = Vec::new();
        let mut i: usize = 0;
        while i < metadata.len()
            invariant
                i <= metadata.len(),
                metadata_views(owned@) == borrowed_views(metadata@).take(i as int),
            decreases metadata.len() - i,
        {
            let ghost held = metadata_views(owned@);
            let (header, value) = metadata[i];
            owned.push((header.to_owned(), slice_to_vec(value)));
            assert(metadata_views(owned@) =~= held.push((header@, value@)));
            assert(borrowed_views(metadata@).take(i + 1) =~= borrowed_views(metadata@).take(
                i as int,
            ).push((header@, value@)));
            i = i + 1;
        }
        assert(borrowed_views(metadata@).take(i as int) =~= borrowed_views(metadata@));
        AuthService { endpoint: endpoint.to_owned(), metadata: owned }
    }

    /// Where the service is reached.
    pub fn endpoint(&self) -> (endpoint: &str)
        ensures
            endpoint@ == self.spec_endpoint(),
    {
        self.endpoint.as_str()
    }

    /// The metadata that goes out with every call.
    pub fn metadata(&self) -> (metadata: &Vec<(String, Vec<u8>)>)
        ensures
            metadata_views(metadata@) == self.spec_metadata(),
    {
        &self.metadata
    }

    /// The check request for a request with the given attributes, to be
    /// judged under the configuration of `ce_host`.
    pub fn message(ce_host: String, attributes: RequestAttributes) -> (message: CheckRequest)
        ensures
            is_check_request(message, ce_host, attributes),
    {
        AuthService::build_check_req(ce_host, attributes)
    }

    /// Puts the check request together: the request, both ends of the
    /// connection, and `ce_host` as the context extension `host`.
    pub fn build_check_req(ce_host: String, attributes: RequestAttributes) -> (message:
        CheckRequest)
        ensures
            is_check_request(message, ce_host, attributes),
    {
        let destination = AuthService::build_peer(
            text_of(&attributes.destination_address),
            port_of(&attributes.destination_port),
        );
        let source = AuthService::build_peer(
            text_of(&attributes.source_address),
            port_of(&attributes.source_port),
        );
        let mut context_extensions: Vec<(String, String)> = Vec::new();
        context_extensions.push(("host".to_owned(), ce_host));
        let request = AuthService::build_request(attributes);
        CheckRequest { request, destination, source, context_extensions }
    }

    /// The request of a check request: its HTTP side and its time.
    pub fn build_request(attributes: RequestAttributes) -> (request: Request)
        ensures
            is_request(request, attributes),
    {
        let http = HttpRequest {
            host: text_of(&attributes.host),
            method: text_of(&attributes.method),
            scheme: text_of(&attributes.scheme),
            path: text_of(&attributes.path),
            protocol: text_of(&attributes.protocol),
            headers: attributes.headers,
        };
        Request { time: time_of(&attributes.time), http }
    }

    /// One end of the connection, from its address and its port.
    pub fn build_peer(host: String, port: u32) -> (peer: Peer)
        ensures
            peer.address == host,
            peer.port == port,
    {
        Peer { address: host, port }
    }
}

/// `request` is the request with the given attributes: each text is that of
/// its attribute, the time is the clock reading of the request's instant, and
/// the headers are handed on.
pub open spec fn is_request(request: Request, attributes: RequestAttributes) -> bool {
    &&& request.http.host@ == text_or_empty(attributes.host)
    &&& request.http.method@ == text_or_empty(attributes.method)
    &&& request.http.scheme@ == text_or_empty(attributes.scheme)
    &&& request.http.path@ == text_or_empty(attributes.path)
    &&& request.http.protocol@ == text_or_empty(attributes.protocol)
    &&& request.http.headers == attributes.headers
    &&& request.time == time_or_zero(attributes.time)
}

/// `message` is the check request for the attributes: the request, both ends
/// of the connection, and `ce_host` as the one context extension, under the
/// key `host`.
pub open spec fn is_check_request(
    message: CheckRequest,
    ce_host: String,
    attributes: RequestAttributes,
) -> bool {
    &&& is_request(message.request, attributes)
    &&& message.destination.address@ == text_or_empty(attributes.destination_address)
    &&& message.destination.port == port_or_zero(attributes.destination_port)
    &&& message.source.address@ == text_or_empty(attributes.source_address)
    &&& message.source.port == port_or_zero(attributes.source_port)
    &&& message.context_extensions.len() == 1
    &&& message.context_extensions[0].0@ == "host"@
    &&& message.context_extensions[0].1 == ce_host
}

} // verus!
