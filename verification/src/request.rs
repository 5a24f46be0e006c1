//! The requests that probes make, and what their answers mean.

use vstd::prelude::*;
use vstd::string::StringSliceAdditionalSpecFns;
use vstd::utf8;

use crate::resources;
use crate::resources::{GrpcAction, HttpGetAction, Pair};
use crate::text;

verus! {

// ---------------------------------------------------------------------------
// HTTP
// ---------------------------------------------------------------------------

/// The address of an HTTP request.
pub open spec fn url_of(http: HttpGetAction, host: Seq<char>, port: u16) -> Seq<char> {
    let scheme = match http.scheme {
        Some(s) => text::lowercase(s@),
        None => text::lowercase("HTTP"@),
    };
    let path = match http.path {
        Some(p) => p@,
        None => "/"@,
    };
    scheme + "://"@ + host + ":"@ + text::decimal(port as int) + path
}

/// The address of an HTTP request.
pub fn request_url(http: &HttpGetAction, host: &str, port: u16) -> (r: String)
    ensures
        r@ == url_of(*http, host@, port),
{
    let scheme = match &http.scheme {
        Some(s) => text::to_lowercase(s.as_str()),
        None => text::to_lowercase("HTTP"),
    };
    let path = match &http.path {
        Some(p) => p.as_str(),
        None => "/",
    };
    let digits = text::decimal_u64(port as u64);
    scheme.concat("://").concat(host).concat(":").concat(digits.as_str()).concat(path)
}

/// Whether a character may stand in the name of a header.
pub open spec fn is_token_char(c: char) -> bool {
    ||| 'a' <= c <= 'z'
    ||| 'A' <= c <= 'Z'
    ||| '0' <= c <= '9'
    ||| c == '!' || c == '#' || c == '$' || c == '%' || c == '&' || c == '\''
    ||| c == '*' || c == '+' || c == '-' || c == '.'
    ||| c == '^' || c == '_' || c == '`' || c == '|' || c == '~'
}

/// Whether a text can be the name of a header.
pub open spec fn is_header_name(s: Seq<char>) -> bool {
    0 < s.len() <= 65535 && forall|i: int| 0 <= i < s.len() ==> is_token_char(#[trigger] s[i])
}

/// Whether a text can be the value of a header: it holds no control character
/// but the tab.
pub open spec fn is_header_value(s: Seq<char>) -> bool {
    forall|i: int|
        0 <= i < s.len() ==> (#[trigger] s[i] as int >= 32 && s[i] as int != 127) || s[i] == '\t'
}

/// Calls [`http::HeaderName::from_bytes`]: it takes a text of one to 65535
/// token characters and refuses every other.
#[verifier::external_body]
pub(crate) fn header_name_taken(name: &str) -> (r: bool)
    ensures
        r == is_header_name(name@),
{
    http::HeaderName::from_bytes(name.as_bytes()).is_ok()
}

/// Calls [`http::HeaderValue::from_str`]: it refuses a text with a control
/// character other than the tab and takes every other.
#[verifier::external_body]
pub(crate) fn header_value_taken(value: &str) -> (r: bool)
    ensures
        r == is_header_value(value@),
{
    http::HeaderValue::from_str(value).is_ok()
}

/// The headers that can be sent.
pub open spec fn sendable(list: Seq<(Seq<char>, Seq<char>)>) -> Seq<(Seq<char>, Seq<char>)>
    decreases list.len(),
{
    if list.len() == 0 {
        Seq::empty()
    } else {
        let before = sendable(list.drop_last());
        let h = list.last();
        if is_header_name(h.0) && is_header_value(h.1) {
            before.push(h)
        } else {
            before
        }
    }
}

/// The headers of a request that can be sent, in their order.
pub fn sendable_headers(headers: &Option<Vec<Pair>>) -> (r: Vec<Pair>)
    ensures
        resources::pairs(r@) == match *headers {
            Some(l) => sendable(resources::pairs(l@)),
            None => Seq::empty(),
        },
{
    let mut out: Vec<Pair> = Vec::new();
    assert(resources::pairs(out@) =~= Seq::<(Seq<char>, Seq<char>)>::empty());
    if let Some(list) = headers {
        let ghost all = resources::pairs(list@);
        let mut i: usize = 0;
        assert(all.take(0) =~= Seq::<(Seq<char>, Seq<char>)>::empty());
        while i < list.len()
            invariant
                i <= list@.len(),
                all == resources::pairs(list@),
                resources::pairs(out@) == sendable(all.take(i as int)),
            decreases list@.len() - i,
        {
            proof {
                assert(all.take(i + 1).drop_last() =~= all.take(i as int));
                assert(all.take(i + 1).last() == all[i as int]);
            }
            let name = list[i].0.as_str();
            let value = list[i].1.as_str();
            if header_name_taken(name) && header_value_taken(value) {
                let ghost before = out@;
                out.push((list[i].0.clone(), list[i].1.clone()));
                assert(resources::pairs(out@) =~= resources::pairs(before).push(all[i as int]));
            }
            i = i + 1;
        }
        assert(all.take(list@.len() as int) =~= all);
    }
    out
}

/// An HTTP request.
#[derive(Debug, Clone, Default, PartialEq)]
pub struct HttpRequest {
    pub url: String,
    pub headers: Vec<Pair>,
}

/// The request of an HTTP probe; `None` where its port is not known, which
/// fails the probe. It goes to the host that the probe names, or else to the
/// address of the container.
pub fn check_http_probe(http: &HttpGetAction, address: &str, port: Option<u16>) -> (r: Option<
    HttpRequest,
>)
    ensures
        r is Some <==> port is Some,
        r is Some ==> r->0.url@ == url_of(
            *http,
            match http.host {
                Some(h) => h@,
                None => address@,
            },
            port->0,
        ),
        r is Some ==> resources::pairs(r->0.headers@) == match http.http_headers {
            Some(l) => sendable(resources::pairs(l@)),
            None => Seq::empty(),
        },
{
    match port {
        Some(p) => {
            let host = match &http.host {
                Some(h) => h.as_str(),
                None => address,
            };
            Some(
                HttpRequest {
                    url: request_url(http, host, p),
                    headers: sendable_headers(&http.http_headers),
                },
            )
        },
        None => None,
    }
}

/// What is done about a redirect.
#[derive(Debug, Clone, Copy, PartialEq, Eq, Structural)]
pub enum RedirectAction {
    /// It leads to another host: the answer is taken as it is.
    Stop,
    /// There were ten already.
    TooMany,
    Follow,
}

/// What is done about a redirect.
pub open spec fn redirect_to(
    original: Option<Seq<char>>,
    target: Option<Seq<char>>,
    previous: int,
) -> RedirectAction {
    if original is Some && target != original {
        RedirectAction::Stop
    } else if previous >= 10 {
        RedirectAction::TooMany
    } else {
        RedirectAction::Follow
    }
}

/// What is done about a redirect: one to another host is not followed, and one
/// to the same host is, ten times at most. `previous` counts the addresses that
/// were asked so far.
pub fn redirect_action(original: Option<&str>, target: Option<&str>, previous: usize) -> (r:
    RedirectAction)
    ensures
        r == redirect_to(text::opt_str(original), text::opt_str(target), previous as int),
{
    let elsewhere = match original {
        Some(o) => match target {
            Some(t) => !text::same_text(o, t),
            None => true,
        },
        None => false,
    };
    if elsewhere {
        RedirectAction::Stop
    } else if previous >= 10 {
        RedirectAction::TooMany
    } else {
        RedirectAction::Follow
    }
}

/// What the answer to an HTTP probe means.
#[derive(Debug, Clone, Copy, PartialEq, Eq, Structural)]
pub struct HttpVerdict {
    pub success: bool,
    /// A redirect was not followed, which is reported.
    pub redirected: bool,
}

/// What the answer to an HTTP probe means, by its status code; there is none
/// where the request failed. Codes from 200 to 399 are successes.
pub fn http_verdict(code: Option<u16>) -> (r: HttpVerdict)
    ensures
        r.success == (code is Some && 200 <= code->0 < 400),
        r.redirected == (code is Some && 300 <= code->0 < 400),
{
    match code {
        Some(c) => HttpVerdict { success: 200 <= c && c < 400, redirected: 300 <= c && c < 400 },
        None => HttpVerdict { success: false, redirected: false },
    }
}

/// What is reported of a redirect that was not followed.
pub fn redirect_warning(body: &str) -> (r: String)
    ensures
        r@ == "Probe terminated redirects, Response body: "@ + body@,
{
    "Probe terminated redirects, Response body: ".to_owned().concat(body)
}

// ---------------------------------------------------------------------------
// TCP and commands
// ---------------------------------------------------------------------------

/// An address with a port.
pub open spec fn host_port(host: Seq<char>, port: u16) -> Seq<char> {
    host + ":"@ + text::decimal(port as int)
}

/// An address with a port.
pub fn socket_address(host: &str, port: u16) -> (r: String)
    ensures
        r@ == host_port(host@, port),
{
    let digits = text::decimal_u64(port as u64);
    host.to_owned().concat(":").concat(digits.as_str())
}

/// Where a TCP probe connects to; `None` where its port is not known, which
/// fails the probe.
pub fn check_tcp_probe(address: &str, port: Option<u16>) -> (r: Option<String>)
    ensures
        text::opt_text(r) == match port {
            Some(p) => Some(host_port(address@, p)),
            None => None,
        },
{
    match port {
        Some(p) => Some(socket_address(address, p)),
        None => None,
    }
}

/// How a command in a container has ended.
#[derive(Debug, Clone, PartialEq)]
pub enum ExecOutcome {
    /// With an exit code, if the engine says one.
    Exited(Option<i64>),
    /// The engine could not run it.
    Failed(String),
    /// It took too long.
    TimedOut,
}

/// What a command says of a probe: it succeeds with exit code zero. A command
/// that took too long is a failure, and one that could not be run is an error.
pub fn check_exec_probe(outcome: ExecOutcome) -> (r: Result<bool, String>)
    ensures
        match outcome {
            ExecOutcome::Exited(code) => r == Ok::<bool, String>(code == Some(0i64)),
            ExecOutcome::Failed(e) => r == Err::<bool, String>(e),
            ExecOutcome::TimedOut => r == Ok::<bool, String>(false),
        },
{
    match outcome {
        ExecOutcome::Exited(code) => Ok(
            match code {
                Some(c) => c == 0,
                None => false,
            },
        ),
        ExecOutcome::Failed(e) => Err(e),
        ExecOutcome::TimedOut => Ok(false),
    }
}

// ---------------------------------------------------------------------------
// gRPC
// ---------------------------------------------------------------------------

/// The service that a gRPC probe asks for.
pub open spec fn service_of(grpc: GrpcAction) -> Seq<char> {
    match grpc.service {
        Some(s) => s@,
        None => Seq::empty(),
    }
}

/// A number in groups of seven bits with the lowest first, where every byte but
/// the last has its highest bit set.
pub open spec fn varint(n: nat) -> Seq<u8>
    decreases n,
{
    if n < 128 {
        seq![n as u8]
    } else {
        seq![(n % 128 + 128) as u8] + varint(n / 128)
    }
}

/// The number that bytes in groups of seven bits denote, and how many bytes it
/// takes; `None` where no byte ends it.
pub open spec fn varint_read(b: Seq<u8>) -> Option<(nat, nat)>
    decreases b.len(),
{
    if b.len() == 0 {
        None
    } else if b[0] < 128 {
        Some((b[0] as nat, 1))
    } else {
        match varint_read(b.skip(1)) {
            Some((n, taken)) => Some(((b[0] - 128 + 128 * n) as nat, taken + 1)),
            None => None,
        }
    }
}

/// The message that asks a health service about a service: nothing where none
/// is named.
pub open spec fn health_message(service: Seq<char>) -> Seq<u8> {
    let bytes = utf8::encode_utf8(service);
    if service.len() == 0 {
        Seq::empty()
    } else {
        seq![10u8] + varint(bytes.len()) + bytes
    }
}

fn push_varint(out: &mut Vec<u8>, number: usize)
    ensures
        final(out)@ == old(out)@ + varint(number as nat),
{
    let ghost all = out@ + varint(number as nat);
    let mut n: usize = number;
    while n >= 128
        invariant
            out@ + varint(n as nat) == all,
        decreases n,
    {
        let ghost before = out@;
        let b: u8 = (n % 128) as u8 + 128;
        out.push(b);
        assert(before + (seq![b] + varint((n / 128) as nat)) =~= out@ + varint((n / 128) as nat));
        n = n / 128;
    }
    let ghost before = out@;
    out.push(n as u8);
    assert(before + seq![n as u8] =~= out@);
}

/// The message that asks a health service about the service that a probe names.
pub fn health_request(grpc: &GrpcAction) -> (r: Vec<u8>)
    ensures
        r@ == health_message(service_of(*grpc)),
{
    let mut out: Vec<u8> = Vec::new();
    let service = match &grpc.service {
        Some(s) => s.as_str(),
        None => "",
    };
    proof {
        reveal_strlit("");
        assert(service@ =~= service_of(*grpc));
    }
    if service.unicode_len() == 0 {
        assert(out@ =~= Seq::<u8>::empty());
        return out;
    }
    let bytes = service.as_bytes();
    let len: usize = bytes.len();
    out.push(10);
    push_varint(&mut out, len);
    assert(out@ =~= seq![10u8] + varint(len as nat));
    let ghost head = out@;
    let mut i: usize = 0;
    assert(head + bytes@.take(0) =~= head);
    while i < bytes.len()
        invariant
            i <= bytes@.len(),
            out@ == head + bytes@.take(i as int),
        decreases bytes@.len() - i,
    {
        out.push(bytes[i]);
        assert(bytes@.take(i + 1) =~= bytes@.take(i as int).push(bytes@[i as int]));
        assert(head + bytes@.take(i + 1) =~= (head + bytes@.take(i as int)).push(
            bytes@[i as int],
        ));
        i = i + 1;
    }
    assert(bytes@.take(bytes@.len() as int) =~= bytes@);
    out
}

/// Where a gRPC probe connects to; `None` where its port is not known, which
/// fails the probe.
pub fn check_grpc_probe(address: &str, port: Option<u16>) -> (r: Option<String>)
    ensures
        text::opt_text(r) == match port {
            Some(p) => Some("http://"@ + address@ + ":"@ + text::decimal(p as int)),
            None => None,
        },
{
    match port {
        Some(p) => {
            let digits = text::decimal_u64(p as u64);
            Some("http://".to_owned().concat(address).concat(":").concat(digits.as_str()))
        },
        None => None,
    }
}

/// Whether the status that a health service answers means that it serves.
pub fn is_serving(status: Option<i32>) -> (r: bool)
    ensures
        r == (status == Some(1i32)),
{
    match status {
        Some(s) => s == 1,
        None => false,
    }
}

// ---------------------------------------------------------------------------
// Laws
// ---------------------------------------------------------------------------

proof fn lemma_varint(len: nat, rest: Seq<u8>)
    ensures
        varint_read(varint(len) + rest) == Some((len, varint(len).len())),
        varint(len).len() > 0,
    decreases len,
{
    let all = varint(len) + rest;
    if len >= 128 {
        lemma_varint(len / 128, rest);
        assert(all.skip(1) =~= varint(len / 128) + rest);
        assert(all[0] == (len % 128 + 128) as u8);
        assert(len == len % 128 + 128 * (len / 128));
    } else {
        assert(all[0] == len as u8);
    }
}

/// The length that stands in front of a service name can be read back, whatever
/// stands behind it.
pub proof fn law_length_is_read_back(len: nat, rest: Seq<u8>)
    ensures
        varint_read(varint(len) + rest) == Some((len, varint(len).len())),
{
    lemma_varint(len, rest);
}

/// Only headers that can be sent are sent.
pub proof fn law_only_valid_headers(list: Seq<(Seq<char>, Seq<char>)>, i: int)
    requires
        0 <= i < sendable(list).len(),
    ensures
        is_header_name(sendable(list)[i].0),
        is_header_value(sendable(list)[i].1),
        list.contains(sendable(list)[i]),
    decreases list.len(),
{
    let before = sendable(list.drop_last());
    let after = sendable(list);
    if i < before.len() {
        law_only_valid_headers(list.drop_last(), i);
        assert(after[i] == before[i]);
        let d = list.drop_last();
        let k = choose|k: int| 0 <= k < d.len() && d[k] == before[i];
        assert(list[k] == before[i]);
    } else {
        assert(after[i] == list.last());
        assert(list[list.len() - 1] == after[i]);
    }
}

/// A redirect is never followed away from the host that was asked first, and
/// no more than ten are followed.
pub proof fn law_redirects_stay_on_the_host(
    original: Option<Seq<char>>,
    target: Option<Seq<char>>,
    previous: int,
)
    requires
        redirect_to(original, target, previous) is Follow,
    ensures
        original is Some ==> target == original,
        previous < 10,
{
}

/// A request goes to the host and the port, by the scheme and to the path that it
/// names, and to the root without one.
pub proof fn law_url_names_host_port_and_path(http: HttpGetAction, host: Seq<char>, port: u16)
    ensures
        http.scheme is Some && http.path is Some ==> url_of(http, host, port) == text::lowercase(
            http.scheme->0@,
        ) + "://"@ + host + ":"@ + text::decimal(port as int) + http.path->0@,
        http.path is None ==> "/"@.is_suffix_of(url_of(http, host, port)),
        http.scheme is None ==> text::lowercase("HTTP"@).is_prefix_of(url_of(http, host, port)),
        text::contains_text(url_of(http, host, port), host_port(host, port)),
{
    let url = url_of(http, host, port);
    let scheme = match http.scheme {
        Some(s) => text::lowercase(s@),
        None => text::lowercase("HTTP"@),
    };
    let path = match http.path {
        Some(p) => p@,
        None => "/"@,
    };
    let at = (scheme + "://"@).len() as int;
    let middle = host + ":"@ + text::decimal(port as int);
    assert(url.subrange(at, at + middle.len()) =~= middle);
    assert(text::matches_at(url, middle, at));
    assert(url.subrange(url.len() - path.len(), url.len() as int) =~= path);
    assert(url.take(scheme.len() as int) =~= scheme);
}

/// Every header that can be sent is sent, with its value.
pub proof fn law_every_valid_header_is_sent(list: Seq<(Seq<char>, Seq<char>)>, i: int)
    requires
        0 <= i < list.len(),
        is_header_name(list[i].0),
        is_header_value(list[i].1),
    ensures
        sendable(list).contains(list[i]),
    decreases list.len(),
{
    let before = sendable(list.drop_last());
    let all = sendable(list);
    if i == list.len() - 1 {
        assert(all[before.len() as int] == list[i]);
    } else {
        law_every_valid_header_is_sent(list.drop_last(), i);
        let k = choose|k: int| 0 <= k < before.len() && before[k] == list[i];
        assert(all[k] == list[i]);
    }
}

/// A redirect to the host that was asked is followed, up to the tenth; one to
/// another host ends the request where it is.
pub proof fn law_redirects_are_followed_on_the_host(
    host: Seq<char>,
    other: Seq<char>,
    previous: int,
)
    ensures
        previous < 10 ==> redirect_to(Some(host), Some(host), previous) is Follow,
        previous >= 10 ==> redirect_to(Some(host), Some(host), previous) is TooMany,
        other != host ==> redirect_to(Some(host), Some(other), previous) is Stop,
        redirect_to(Some(host), None, previous) is Stop,
        previous < 10 ==> redirect_to(None, Some(other), previous) is Follow,
{
}

/// What a service is asked is the name of the service, behind its mark and its
/// length; nothing is said where no service is named.
pub proof fn law_health_request_names_the_service(service: Seq<char>)
    ensures
        service.len() == 0 ==> health_message(service).len() == 0,
        service.len() > 0 ==> health_message(service).len() > 0 && health_message(service)[0] == 10
            && ({
            let read = varint_read(health_message(service).skip(1));
            &&& read is Some
            &&& (read->0).0 == utf8::encode_utf8(service).len()
            &&& health_message(service).skip(1 + (read->0).1 as int) == utf8::encode_utf8(service)
        }),
{
    if service.len() > 0 {
        let bytes = utf8::encode_utf8(service);
        let m = health_message(service);
        law_length_is_read_back(bytes.len(), bytes);
        assert(m.skip(1) =~= varint(bytes.len()) + bytes);
        let n = varint(bytes.len()).len();
        assert(m.skip(1 + n as int) =~= bytes);
    }
}

} // verus!
