//! What the listener decides for each inbound request: the URL it is routed
//! by, the request to send upstream and the address to send it to.
//!
//! Nothing here touches a socket. The listener hands over what it read from
//! the inbound request and carries out what comes back.

use std::sync::Arc;
use vstd::prelude::*;
use vstd::utf8::encode_utf8;
use crate::address::{Url, UrlView, url_of};
use crate::route_error::{RouteError, RouteErrorView, route_error_text};
use crate::router::{Route, Router, RouterView, route};
use crate::text::{decimal, decimal_string};

verus! {

/// A header line: its name and the bytes of its value.
#[derive(Debug)]
pub struct Header {
    pub name: String,
    pub value: Vec<u8>,
}

/// The mathematical content of a [`Header`].
pub struct HeaderView {
    pub name: Seq<char>,
    pub value: Seq<u8>,
}

impl View for Header {
    type V = HeaderView;

    open spec fn view(&self) -> HeaderView {
        HeaderView { name: self.name@, value: self.value@ }
    }
}

/// The mathematical content of a list of headers.
pub open spec fn headers_view(headers: Seq<Header>) -> Seq<HeaderView> {
    headers.map_values(|header: Header| header@)
}

/// Whether a header name reads `host` once letter case is set aside.
pub open spec fn is_host_name(name: Seq<char>) -> bool {
    &&& name.len() == 4
    &&& (name[0] == 'h' || name[0] == 'H')
    &&& (name[1] == 'o' || name[1] == 'O')
    &&& (name[2] == 's' || name[2] == 'S')
    &&& (name[3] == 't' || name[3] == 'T')
}

/// Whether a header name reads `host` once letter case is set aside.
pub fn is_host_header(name: &str) -> (res: bool)
    ensures
        res == is_host_name(name@),
{
    if name.unicode_len() != 4 {
        return false;
    }
    let h = name.get_char(0);
    let o = name.get_char(1);
    let s = name.get_char(2);
    let t = name.get_char(3);
    (h == 'h' || h == 'H') && (o == 'o' || o == 'O') && (s == 's' || s == 'S') && (t == 't' || t == 'T')
}

/// The headers of `headers` that are no `Host` header, in their order.
pub open spec fn without_host(headers: Seq<HeaderView>) -> Seq<HeaderView>
    decreases headers.len(),
{
    if headers.len() == 0 {
        Seq::empty()
    } else if is_host_name(headers.last().name) {
        without_host(headers.drop_last())
    } else {
        without_host(headers.drop_last()).push(headers.last())
    }
}

/// The `Host` header that names `host`.
pub open spec fn host_header(host: Seq<char>) -> HeaderView {
    HeaderView { name: "host"@, value: encode_utf8(host) }
}

/// The headers sent upstream: the inbound ones but for any `Host` header,
/// followed by a `Host` header that names the destination host.
pub open spec fn upstream_headers(inbound: Seq<HeaderView>, host: Seq<char>) -> Seq<HeaderView> {
    without_host(inbound).push(host_header(host))
}

/// Builds the headers to send upstream.
pub fn outbound_headers(inbound: &Vec<Header>, host: &str) -> (res: Vec<Header>)
    ensures
        headers_view(res@) == upstream_headers(headers_view(inbound@), host@),
{
    let ghost all = headers_view(inbound@);
    let mut res: Vec<Header> = Vec::new();
    let mut i: usize = 0;
    proof {
        assert(all.take(0) =~= Seq::<HeaderView>::empty());
        assert(headers_view(res@) =~= Seq::<HeaderView>::empty());
    }
    while i < inbound.len()
        invariant
            i <= inbound@.len(),
            all == headers_view(inbound@),
            headers_view(res@) == without_host(all.take(i as int)),
        decreases inbound@.len() - i,
    {
        let ghost before = headers_view(res@);
        proof {
            assert(all.take(i + 1).drop_last() =~= all.take(i as int));
            assert(all.take(i + 1).last() == inbound@[i as int]@);
        }
        if !is_host_header(inbound[i].name.as_str()) {
            res.push(Header { name: inbound[i].name.clone(), value: inbound[i].value.clone() });
            proof {
                assert(headers_view(res@) =~= before.push(inbound@[i as int]@));
            }
        }
        i += 1;
    }
    let ghost kept = headers_view(res@);
    proof {
        assert(all.take(i as int) =~= all);
    }
    res.push(Header { name: "host".to_owned(), value: host.as_bytes_vec() });
    proof {
        assert(headers_view(res@) =~= kept.push(host_header(host@)));
    }
    res
}

/// What the listener read from an inbound request.
#[derive(Debug)]
pub struct InboundRequest {
    pub method: String,
    /// The request target, as it stands in the request line.
    pub target: String,
    pub headers: Vec<Header>,
}

/// What the listener is to send, to whom and as whom.
pub struct OutboundRequest {
    /// The client configuration to perform the TLS handshake with.
    pub config: Arc<rustls::ClientConfig>,
    pub method: String,
    /// The destination URL.
    pub uri: String,
    pub headers: Vec<Header>,
    /// The host of the destination: the name to ask for in the handshake.
    pub server_name: String,
    /// The address to connect to: the host, a colon and the port.
    pub address: String,
}

/// Why a request could not be forwarded.
#[derive(Debug)]
pub enum ForwardError {
    /// The request target does not make a URL.
    InvalidUrl { text: String },
    /// Routing failed.
    Route(RouteError),
    /// No request mapping matches the request.
    NoDestination,
    /// No client identity covers the destination.
    NoClientConfig,
    /// The destination URL has no host.
    MissingHost { destination: String },
}

/// The mathematical content of a [`ForwardError`].
pub enum ForwardErrorView {
    InvalidUrl { text: Seq<char> },
    Route(RouteErrorView),
    NoDestination,
    NoClientConfig,
    MissingHost { destination: Seq<char> },
}

impl View for ForwardError {
    type V = ForwardErrorView;

    open spec fn view(&self) -> ForwardErrorView {
        match self {
            ForwardError::InvalidUrl { text } => ForwardErrorView::InvalidUrl { text: text@ },
            ForwardError::Route(error) => ForwardErrorView::Route(error@),
            ForwardError::NoDestination => ForwardErrorView::NoDestination,
            ForwardError::NoClientConfig => ForwardErrorView::NoClientConfig,
            ForwardError::MissingHost { destination } => ForwardErrorView::MissingHost {
                destination: destination@,
            },
        }
    }
}

/// The text of a forwarding error.
pub open spec fn forward_error_text(error: ForwardErrorView) -> Seq<char> {
    match error {
        ForwardErrorView::InvalidUrl { text } => "not an absolute URL: "@ + text,
        ForwardErrorView::Route(error) => route_error_text(error),
        ForwardErrorView::NoDestination => "No destination found for request"@,
        ForwardErrorView::NoClientConfig => "No client config found for request"@,
        ForwardErrorView::MissingHost { destination } => "Missing host in destination "@ + destination,
    }
}

impl ForwardError {
    /// A description of the error.
    pub fn message(&self) -> (res: String)
        ensures
            res@ == forward_error_text(self@),
    {
        match self {
            ForwardError::InvalidUrl { text } => {
                let mut res = "not an absolute URL: ".to_owned();
                res.append(text.as_str());
                res
            },
            ForwardError::Route(error) => error.message(),
            ForwardError::NoDestination => "No destination found for request".to_owned(),
            ForwardError::NoClientConfig => "No client config found for request".to_owned(),
            ForwardError::MissingHost { destination } => {
                let mut res = "Missing host in destination ".to_owned();
                res.append(destination.as_str());
                res
            },
        }
    }
}

/// The text of the URL by which a request is routed: the request target
/// behind `http://localhost:` and the port of the listener. What the
/// request says of its host plays no part.
pub open spec fn inbound_url_text(port: u16, target: Seq<char>) -> Seq<char> {
    "http://localhost:"@ + decimal(port as nat) + target
}

/// The URL by which a request received on `port` is routed.
pub fn inbound_url(port: u16, target: &str) -> (res: Result<Url, ForwardError>)
    ensures
        match res {
            Ok(url) => url_of(inbound_url_text(port, target@)) == Some(url@),
            Err(error) => url_of(inbound_url_text(port, target@)) is None && error@ == (
            ForwardErrorView::InvalidUrl { text: inbound_url_text(port, target@) }),
        },
{
    let mut text = "http://localhost:".to_owned();
    text.append(decimal_string(port as u128).as_str());
    text.append(target);
    match Url::parse(text.as_str()) {
        Ok(url) => Ok(url),
        Err(_) => Err(ForwardError::InvalidUrl { text }),
    }
}

/// The port to connect to where the destination names none.
pub const DEFAULT_UPSTREAM_PORT: u16 = 443;

/// The address to connect to for a destination: its host, a colon, and its
/// port or, where it names none, 443.
pub open spec fn upstream_address_text(host: Seq<char>, port: Option<u16>) -> Seq<char> {
    host + ":"@ + decimal(
        match port {
            Some(port) => port as nat,
            None => DEFAULT_UPSTREAM_PORT as nat,
        },
    )
}

/// The address to connect to for a destination host and port.
pub fn upstream_address(host: &str, port: Option<u16>) -> (res: String)
    ensures
        res@ == upstream_address_text(host@, port),
{
    let port = match port {
        Some(port) => port,
        None => DEFAULT_UPSTREAM_PORT,
    };
    let mut res = host.to_owned();
    res.append(":");
    res.append(decimal_string(port as u128).as_str());
    res
}

/// The request to send upstream, but for the client configuration.
pub struct OutboundView {
    /// The index of the identity whose configuration is used.
    pub identity: int,
    pub method: Seq<char>,
    pub uri: Seq<char>,
    pub headers: Seq<HeaderView>,
    pub server_name: Seq<char>,
    pub address: Seq<char>,
}

/// What is sent upstream for a request, given where the router sends it.
///
/// Without a destination the request fails for want of a destination,
/// whether or not an identity was found; with a destination but no identity
/// it fails for want of a client configuration.
pub open spec fn outbound_of_route(
    routed: Route,
    method: Seq<char>,
    headers: Seq<HeaderView>,
) -> Result<OutboundView, ForwardErrorView> {
    match routed.destination {
        None => Err(ForwardErrorView::NoDestination),
        Some(destination) => match routed.identity {
            None => Err(ForwardErrorView::NoClientConfig),
            Some(identity) => match destination.host {
                None => Err(ForwardErrorView::MissingHost { destination: destination.href }),
                Some(host) => Ok(
                    OutboundView {
                        identity,
                        method,
                        uri: destination.href,
                        headers: upstream_headers(headers, host),
                        server_name: host,
                        address: upstream_address_text(host, destination.port),
                    },
                ),
            },
        },
    }
}

/// What is sent upstream for a request received on `port`.
pub open spec fn outbound(
    router: RouterView,
    port: u16,
    method: Seq<char>,
    target: Seq<char>,
    headers: Seq<HeaderView>,
) -> Result<OutboundView, ForwardErrorView> {
    match url_of(inbound_url_text(port, target)) {
        None => Err(ForwardErrorView::InvalidUrl { text: inbound_url_text(port, target) }),
        Some(url) => match route(router, url.href) {
            Err(error) => Err(ForwardErrorView::Route(error)),
            Ok(routed) => outbound_of_route(routed, method, headers),
        },
    }
}

/// Whether `request` is the request `expected`, sent with the configuration
/// that `configs` lists for its identity.
pub open spec fn is_outbound(
    request: OutboundRequest,
    expected: OutboundView,
    configs: Seq<Arc<rustls::ClientConfig>>,
) -> bool {
    &&& 0 <= expected.identity < configs.len()
    &&& request.config == configs[expected.identity]
    &&& request.method@ == expected.method
    &&& request.uri@ == expected.uri
    &&& headers_view(request.headers@) == expected.headers
    &&& request.server_name@ == expected.server_name
    &&& request.address@ == expected.address
}

/// Turns what the router returned for a request into the request to send
/// upstream.
///
/// `(_, None)` fails for want of a destination and `(None, Some(_))` for
/// want of a client configuration. Otherwise the method is that of the
/// inbound request, the URI is the destination, every inbound header but
/// `Host` is kept in place, and a `Host` header with the host of the
/// destination is added behind them.
pub fn prepare(
    routed: (Option<Arc<rustls::ClientConfig>>, Option<Url>),
    request: &InboundRequest,
) -> (res: Result<OutboundRequest, ForwardError>)
    ensures
        match res {
            Ok(out) => {
                &&& routed.0 == Some(out.config)
                &&& routed.1 matches Some(destination)
                &&& destination@.host matches Some(host)
                &&& out.method@ == request.method@
                &&& out.uri@ == destination@.href
                &&& headers_view(out.headers@) == upstream_headers(headers_view(request.headers@), host)
                &&& out.server_name@ == host
                &&& out.address@ == upstream_address_text(host, destination@.port)
            },
            Err(error) => error@ == match routed.1 {
                None => ForwardErrorView::NoDestination,
                Some(destination) => match routed.0 {
                    None => ForwardErrorView::NoClientConfig,
                    Some(_) => ForwardErrorView::MissingHost { destination: destination@.href },
                },
            } && (routed.0 is None || routed.1 is None || routed.1->Some_0@.host is None),
        },
{
    let (config, destination) = routed;
    let destination = match destination {
        Some(destination) => destination,
        None => {
            return Err(ForwardError::NoDestination);
        },
    };
    let config = match config {
        Some(config) => config,
        None => {
            return Err(ForwardError::NoClientConfig);
        },
    };
    let host = match destination.host_str() {
        Some(host) => host,
        None => {
            return Err(ForwardError::MissingHost { destination: destination.as_str().to_owned() });
        },
    };
    Ok(
        OutboundRequest {
            config,
            method: request.method.clone(),
            uri: destination.as_str().to_owned(),
            headers: outbound_headers(&request.headers, host),
            server_name: host.to_owned(),
            address: upstream_address(host, destination.port()),
        },
    )
}

/// Decides what to do with a request received on `port`: the request is
/// routed by the URL `http://localhost:<port><target>`, and what the router
/// returns is turned into the request to send upstream.
pub fn handle(port: u16, router: &Router, request: &InboundRequest) -> (res: Result<
    OutboundRequest,
    ForwardError,
>)
    ensures
        match res {
            Ok(out) => outbound(
                router@,
                port,
                request.method@,
                request.target@,
                headers_view(request.headers@),
            ) matches Ok(expected) && is_outbound(out, expected, router.configs()),
            Err(error) => outbound(
                router@,
                port,
                request.method@,
                request.target@,
                headers_view(request.headers@),
            ) == Err::<OutboundView, ForwardErrorView>(error@),
        },
{
    let url = match inbound_url(port, request.target.as_str()) {
        Ok(url) => url,
        Err(error) => {
            return Err(error);
        },
    };
    match router.get_destination(&url) {
        Err(error) => Err(ForwardError::Route(error)),
        Ok(routed) => prepare(routed, request),
    }
}

/// Headers are forwarded in the order in which they came: dropping the
/// `Host` headers of two lists joined is joining what is kept of each.
pub proof fn law_header_order_kept(first: Seq<HeaderView>, second: Seq<HeaderView>)
    ensures
        without_host(first + second) == without_host(first) + without_host(second),
    decreases second.len(),
{
    if second.len() == 0 {
        assert(first + second =~= first);
        assert(without_host(first) + without_host(second) =~= without_host(first));
    } else {
        law_header_order_kept(first, second.drop_last());
        assert((first + second).drop_last() =~= first + second.drop_last());
        assert((first + second).last() == second.last());
        if !is_host_name(second.last().name) {
            assert((without_host(first) + without_host(second.drop_last())).push(second.last())
                =~= without_host(first) + without_host(second.drop_last()).push(second.last()));
        }
    }
}

/// What is kept of a list of headers holds no `Host` header, holds only
/// headers of the list, and holds every header of the list that is no
/// `Host` header.
pub proof fn lemma_without_host(headers: Seq<HeaderView>)
    ensures
        forall|i: int|
            0 <= i < without_host(headers).len() ==> !is_host_name((#[trigger] without_host(headers)[i]).name)
                && headers.contains(without_host(headers)[i]),
        forall|i: int|
            0 <= i < headers.len() && !is_host_name((#[trigger] headers[i]).name) ==> without_host(
                headers,
            ).contains(headers[i]),
        (forall|i: int| 0 <= i < headers.len() ==> !is_host_name((#[trigger] headers[i]).name))
            ==> without_host(headers) == headers,
    decreases headers.len(),
{
    if headers.len() > 0 {
        let front = headers.drop_last();
        let kept = without_host(front);
        lemma_without_host(front);
        assert forall|i: int| 0 <= i < without_host(headers).len() implies !is_host_name(
            (#[trigger] without_host(headers)[i]).name,
        ) && headers.contains(without_host(headers)[i]) by {
            if i < kept.len() {
                assert(without_host(headers)[i] == kept[i]);
                let j = choose|j: int| 0 <= j < front.len() && front[j] == kept[i];
                assert(headers[j] == kept[i]);
            } else {
                assert(without_host(headers)[i] == headers[headers.len() - 1]);
            }
        }
        assert forall|i: int| 0 <= i < headers.len() && !is_host_name((#[trigger] headers[i]).name) implies without_host(
            headers,
        ).contains(headers[i]) by {
            if i < front.len() {
                assert(front[i] == headers[i]);
                let j = choose|j: int| 0 <= j < kept.len() && kept[j] == front[i];
                assert(without_host(headers)[j] == headers[i]);
            } else {
                assert(without_host(headers)[kept.len() as int] == headers[i]);
            }
        }
        if forall|i: int| 0 <= i < headers.len() ==> !is_host_name((#[trigger] headers[i]).name) {
            assert forall|i: int| 0 <= i < front.len() implies !is_host_name((#[trigger] front[i]).name) by {
                assert(front[i] == headers[i]);
            }
            assert(!is_host_name(headers[headers.len() - 1].name));
            assert(without_host(headers) =~= headers);
        }
    } else {
        assert(without_host(headers) =~= headers);
    }
}

/// The last header sent upstream is a `Host` header that names the host of
/// the destination, and it is the only `Host` header sent: none of the
/// inbound request is forwarded.
pub proof fn law_host_header_names_destination(inbound: Seq<HeaderView>, host: Seq<char>)
    ensures
        upstream_headers(inbound, host).len() > 0,
        upstream_headers(inbound, host).last() == host_header(host),
        is_host_name(host_header(host).name),
        forall|i: int|
            0 <= i < upstream_headers(inbound, host).len() - 1 ==> !is_host_name(
                (#[trigger] upstream_headers(inbound, host)[i]).name,
            ),
{
    lemma_without_host(inbound);
    reveal_strlit("host");
    assert forall|i: int| 0 <= i < upstream_headers(inbound, host).len() - 1 implies !is_host_name(
        (#[trigger] upstream_headers(inbound, host)[i]).name,
    ) by {
        assert(upstream_headers(inbound, host)[i] == without_host(inbound)[i]);
    }
}

/// Every inbound header that is no `Host` header is sent upstream as it
/// came, name and value; nothing else is sent in front of the new `Host`
/// header.
pub proof fn law_other_headers_forwarded(inbound: Seq<HeaderView>, host: Seq<char>)
    ensures
        upstream_headers(inbound, host).drop_last() == without_host(inbound),
        forall|i: int|
            0 <= i < inbound.len() && !is_host_name((#[trigger] inbound[i]).name) ==> upstream_headers(
                inbound,
                host,
            ).contains(inbound[i]),
        forall|i: int|
            0 <= i < without_host(inbound).len() ==> inbound.contains(#[trigger] without_host(inbound)[i]),
        (forall|i: int| 0 <= i < inbound.len() ==> !is_host_name((#[trigger] inbound[i]).name))
            ==> upstream_headers(inbound, host) == inbound.push(host_header(host)),
{
    lemma_without_host(inbound);
    assert(upstream_headers(inbound, host).drop_last() =~= without_host(inbound));
    assert forall|i: int| 0 <= i < inbound.len() && !is_host_name((#[trigger] inbound[i]).name) implies upstream_headers(
        inbound,
        host,
    ).contains(inbound[i]) by {
        let j = choose|j: int| 0 <= j < without_host(inbound).len() && without_host(inbound)[j] == inbound[i];
        assert(upstream_headers(inbound, host)[j] == inbound[i]);
    }
}

/// A request whose URL is routed to a destination with a host, under an
/// identity, goes upstream with its own method, with the destination as
/// its URI, with a `Host` header that names the host of the destination,
/// and under that identity.
pub proof fn law_request_follows_route(
    router: RouterView,
    port: u16,
    method: Seq<char>,
    target: Seq<char>,
    headers: Seq<HeaderView>,
    url: UrlView,
    destination: UrlView,
    identity: int,
)
    requires
        url_of(inbound_url_text(port, target)) == Some(url),
        route(router, url.href) == Ok::<Route, RouteErrorView>(
            Route { identity: Some(identity), destination: Some(destination) },
        ),
        destination.host is Some,
    ensures
        outbound(router, port, method, target, headers) matches Ok(sent) && sent.identity == identity
            && sent.method == method && sent.uri == destination.href && sent.server_name
            == destination.host->Some_0 && sent.headers.last() == host_header(destination.host->Some_0),
{
    law_host_header_names_destination(headers, destination.host->Some_0);
}

} // verus!
