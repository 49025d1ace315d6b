//! The HTTP surface: one signalling route and the static viewer.
//!
//! The server itself belongs to the caller. What it answers is decided here:
//! which request goes where, which asset a path names and with what content
//! type it is sent, what a signalling result looks like on the wire, and what
//! the operator reads when the server is up.

use vstd::prelude::*;
use vstd::string::{StrSliceExecFns, StringExecFns, StringSliceAdditionalSpecFns};
use crate::error::SinkError;
use crate::signal::SessionResponse;
use crate::text::{decimal, same_text, to_decimal, trim_start, trim_start_of};

verus! {

/// The content type that the `mime_guess` crate gives for a path.
pub uninterp spec fn guessed_mime(path: Seq<char>) -> Seq<char>;

/// Looks the content type of `path` up by its extension, with
/// `mime_guess::from_path` and `first_or_octet_stream`: the result is what
/// [`guessed_mime`] names.
#[verifier::external_body]
fn guess_content_type(path: &str) -> (r: String)
    ensures
        r@ == guessed_mime(path@),
{
    mime_guess::from_path(path).first_or_octet_stream().as_ref().to_string()
}

/// The request methods that the routes tell apart.
#[derive(Debug, Clone, Copy, PartialEq, Eq, Structural)]
pub enum Method {
    Get,
    Head,
    Post,
    Other,
}

/// Where a request goes.
#[derive(Debug, Clone, Copy, PartialEq, Eq, Structural)]
pub enum Route {
    /// The signalling route.
    Session,
    /// The static assets.
    Asset,
    /// Nowhere: the method is not allowed on the path.
    NotAllowed,
}

/// The path of the signalling route.
pub open spec fn session_path() -> Seq<char> {
    "/api/session"@
}

/// Where a request with `method` and `path` goes: the signalling route takes
/// posts to its path and nothing else; every other path is an asset, for
/// reading only.
pub open spec fn route_of(method: Method, path: Seq<char>) -> Route {
    if path == session_path() {
        if method == Method::Post {
            Route::Session
        } else {
            Route::NotAllowed
        }
    } else if method == Method::Get || method == Method::Head {
        Route::Asset
    } else {
        Route::NotAllowed
    }
}

/// Routes a request.
pub fn route(method: Method, path: &str) -> (r: Route)
    ensures
        r == route_of(method, path@),
{
    if same_text(path, "/api/session") {
        match method {
            Method::Post => Route::Session,
            _ => Route::NotAllowed,
        }
    } else {
        match method {
            Method::Get | Method::Head => Route::Asset,
            _ => Route::NotAllowed,
        }
    }
}

/// The asset that is served for the root path.
pub open spec fn index_asset() -> Seq<char> {
    "index.html"@
}

/// The asset that a request path names: the path without its leading
/// slashes, and the index page where nothing is left.
pub open spec fn asset_of(uri_path: Seq<char>) -> Seq<char> {
    if trim_start(uri_path, '/').len() == 0 {
        index_asset()
    } else {
        trim_start(uri_path, '/')
    }
}

/// The name of the asset that a request path asks for.
pub fn asset_path(uri_path: &str) -> (r: String)
    ensures
        r@ == asset_of(uri_path@),
{
    let path = trim_start_of(uri_path, '/');
    if path.unicode_len() == 0 {
        String::from_str("index.html")
    } else {
        String::from_str(path)
    }
}

/// A response, as far as the sink decides it.
#[derive(Debug, Clone, PartialEq, Eq)]
pub struct HttpResponse {
    pub status: u16,
    pub content_type: Option<String>,
    pub body: Vec<u8>,
}

/// The status of a response that carries what was asked for.
pub const STATUS_OK: u16 = 200;

/// The status of a response for an asset that is not in the bundle.
pub const STATUS_NOT_FOUND: u16 = 404;

/// The status of a response for a signalling request that failed.
pub const STATUS_FAILED: u16 = 500;

/// The body of a response for an asset that is not in the bundle.
pub open spec fn not_found_body() -> Seq<u8> {
    "Not Found".spec_bytes()
}

/// The response for an asset, given its content and the content type of its
/// path: the content with that type, or `404` where there is no such asset.
pub fn asset_response(content: Option<Vec<u8>>, content_type: String) -> (r: HttpResponse)
    ensures
        match content {
            Some(data) => {
                &&& r.status == STATUS_OK
                &&& r.content_type == Some(content_type)
                &&& r.body == data
            },
            None => {
                &&& r.status == STATUS_NOT_FOUND
                &&& r.content_type is None
                &&& r.body@ == not_found_body()
            },
        },
{
    match content {
        Some(data) => HttpResponse {
            status: STATUS_OK,
            content_type: Some(content_type),
            body: data,
        },
        None => HttpResponse {
            status: STATUS_NOT_FOUND,
            content_type: None,
            body: "Not Found".as_bytes_vec(),
        },
    }
}

/// The response for the asset `asset`, whose content is `content` where the
/// bundle holds it.
pub fn serve_static(asset: &str, content: Option<Vec<u8>>) -> (r: HttpResponse)
    ensures
        match content {
            Some(data) => {
                &&& r.status == STATUS_OK
                &&& r.content_type matches Some(t) && t@ == guessed_mime(asset@)
                &&& r.body == data
            },
            None => {
                &&& r.status == STATUS_NOT_FOUND
                &&& r.content_type is None
                &&& r.body@ == not_found_body()
            },
        },
{
    asset_response(content, guess_content_type(asset))
}

/// What a signalling request is answered with.
#[derive(Debug, Clone, PartialEq, Eq)]
pub enum SessionReply {
    /// Status 200, with the response as a JSON body.
    Accepted(SessionResponse),
    /// Status 500, with the text of the error as a plain body.
    Failed { status: u16, body: String },
}

/// The answer to a signalling request, from the result of handling it.
pub fn session_reply(result: Result<SessionResponse, SinkError>) -> (r: SessionReply)
    ensures
        match result {
            Ok(response) => r == SessionReply::Accepted(response),
            Err(e) => r matches SessionReply::Failed { status, body } && status == STATUS_FAILED
                && body@ == e@.text(),
        },
{
    match result {
        Ok(response) => SessionReply::Accepted(response),
        Err(e) => SessionReply::Failed { status: STATUS_FAILED, body: e.message() },
    }
}

/// An address of a network interface.
#[derive(Debug, Clone, Copy, PartialEq, Eq, Structural)]
pub enum Address {
    V4(u8, u8, u8, u8),
    V6,
}

/// A network interface of the machine.
#[derive(Debug, Clone, Copy, PartialEq, Eq, Structural)]
pub struct Interface {
    pub loopback: bool,
    pub address: Address,
}

impl Interface {
    /// Whether the interface has an IPv4 address that others can reach.
    pub open spec fn is_external_v4(self) -> bool {
        !self.loopback && self.address is V4
    }
}

/// The address of the first interface with an IPv4 address that is not a
/// loopback, if there is one.
pub open spec fn first_external(interfaces: Seq<Interface>) -> Option<Address>
    decreases interfaces.len(),
{
    if interfaces.len() == 0 {
        None
    } else if interfaces[0].is_external_v4() {
        Some(interfaces[0].address)
    } else {
        first_external(interfaces.drop_first())
    }
}

/// Finds the first interface with an IPv4 address that is not a loopback.
pub fn first_external_ipv4(interfaces: &[Interface]) -> (r: Option<Address>)
    ensures
        r == first_external(interfaces@),
{
    let n: usize = interfaces.len();
    let mut i: usize = 0;
    assert(interfaces@.subrange(0, n as int) =~= interfaces@);
    while i < n
        invariant
            n == interfaces@.len(),
            i <= n,
            first_external(interfaces@) == first_external(interfaces@.subrange(i as int, n as int)),
        decreases n - i,
    {
        let interface = interfaces[i];
        let ghost rest = interfaces@.subrange(i as int, n as int);
        assert(rest[0] == interface);
        if !interface.loopback {
            match interface.address {
                Address::V4(..) => {
                    return Some(interface.address);
                },
                Address::V6 => {},
            }
        }
        assert(rest.drop_first() =~= interfaces@.subrange(i + 1, n as int));
        i += 1;
    }
    None
}

/// The four numbers of an IPv4 address, with dots between them.
pub open spec fn dotted(a: u8, b: u8, c: u8, d: u8) -> Seq<char> {
    decimal(a as nat) + "."@ + decimal(b as nat) + "."@ + decimal(c as nat) + "."@ + decimal(
        d as nat,
    )
}

/// The name under which the machine is shown where none is known.
pub open spec fn fallback_host() -> Seq<char> {
    "localhost"@
}

/// How an address is shown: an IPv4 address in dotted numbers, anything else
/// as the fallback.
pub open spec fn shown_address(address: Option<Address>) -> Seq<char> {
    match address {
        Some(Address::V4(a, b, c, d)) => dotted(a, b, c, d),
        _ => fallback_host(),
    }
}

/// How a host name is shown: as it is, or as the fallback where there is none.
pub open spec fn shown_host(hostname: Option<Seq<char>>) -> Seq<char> {
    match hostname {
        Some(name) => name,
        None => fallback_host(),
    }
}

/// The line that tells the operator where the server listens.
pub open spec fn startup_text(host: Seq<char>, address: Seq<char>, port: u16) -> Seq<char> {
    "\x1b[32mHTTP server started at http://"@ + host + ".local:"@ + decimal(port as nat)
        + " and http://"@ + address + ":"@ + decimal(port as nat) + "\x1b[0m"@
}

fn show_address(address: Option<Address>) -> (r: String)
    ensures
        r@ == shown_address(address),
{
    match address {
        Some(Address::V4(a, b, c, d)) => {
            let mut r = to_decimal(a as u64);
            r.append(".");
            r.append(to_decimal(b as u64).as_str());
            r.append(".");
            r.append(to_decimal(c as u64).as_str());
            r.append(".");
            r.append(to_decimal(d as u64).as_str());
            r
        },
        _ => String::from_str("localhost"),
    }
}

/// Writes the line that tells the operator where the server listens: under
/// the host name, and under the first IPv4 address that is not a loopback.
pub fn startup_line(hostname: Option<&str>, interfaces: &[Interface], port: u16) -> (r: String)
    ensures
        r@ == startup_text(
            shown_host(
                match hostname {
                    Some(h) => Some(h@),
                    None => None,
                },
            ),
            shown_address(first_external(interfaces@)),
            port,
        ),
{
    let address = first_external_ipv4(interfaces);
    let host: &str = match hostname {
        Some(h) => h,
        None => "localhost",
    };
    let number = to_decimal(port as u64);
    let mut r = String::from_str("\x1b[32mHTTP server started at http://");
    r.append(host);
    r.append(".local:");
    r.append(number.as_str());
    r.append(" and http://");
    r.append(show_address(address).as_str());
    r.append(":");
    r.append(number.as_str());
    r.append("\x1b[0m");
    r
}

/// The address the server binds: every interface, on `port`.
pub open spec fn bind_text(port: u16) -> Seq<char> {
    "[::]:"@ + decimal(port as nat)
}

/// Writes the address the server binds.
pub fn bind_address(port: u16) -> (r: String)
    ensures
        r@ == bind_text(port),
{
    String::from_str("[::]:").concat(to_decimal(port as u64).as_str())
}

} // verus!
