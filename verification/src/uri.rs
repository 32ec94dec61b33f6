use vstd::prelude::*;
use crate::credentials::Credentials;
use crate::error::ClientError;

verus! {

/// The endpoint that describes the logged-in summoner.
pub const CURRENT_SUMMONER_ENDPOINT: &'static str = "/lol-summoner/v1/current-summoner";

/// The endpoint that describes the sign-in, and so the region.
pub const RSO_AUTH_ENDPOINT: &'static str = "/rso-auth/v1/authorization";

/// The WAMP message that subscribes to every event of the client's JSON API.
pub const SUBSCRIBE_MESSAGE: &'static str = "[5,\"OnJsonApiEvent\"]";

/// The text of `Url::parse(input)`, as `Url::as_str` gives it, or `None`
/// when the input is refused.
pub uninterp spec fn parsed_url(input: Seq<char>) -> Option<Seq<char>>;

/// The text of `Url::parse_with_params(input, params)`, as `Url::as_str`
/// gives it, or `None` when the input is refused.
pub uninterp spec fn parsed_url_with_params(
    input: Seq<char>,
    params: Seq<(Seq<char>, Seq<char>)>,
) -> Option<Seq<char>>;

/// An optional string as plain values.
pub open spec fn opt_string_view(s: Option<String>) -> Option<Seq<char>> {
    match s {
        None => None,
        Some(s) => Some(s@),
    }
}

/// Query parameters as plain values.
pub open spec fn params_view(params: Seq<(String, String)>) -> Seq<(Seq<char>, Seq<char>)> {
    params.map_values(|p: (String, String)| (p.0@, p.1@))
}

/// Parses an absolute URL and gives back its text.
///
/// Trusted: calls `reqwest::Url::parse` (the `url` crate's `Url::parse`)
/// and `Url::as_str`; the contract claims only that the result is
/// `parsed_url` of the input.
#[verifier::external_body]
fn parse_url(input: &str) -> (r: Option<String>)
    ensures
        opt_string_view(r) == parsed_url(input@),
{
    match reqwest::Url::parse(input) {
        Ok(url) => Some(url.as_str().to_string()),
        Err(_) => None,
    }
}

/// Parses an absolute URL, appends query parameters, and gives back its
/// text.
///
/// Trusted: calls `reqwest::Url::parse_with_params` and `Url::as_str`; the
/// contract claims only that the result is `parsed_url_with_params` of the
/// input and the parameters.
#[verifier::external_body]
fn parse_url_with_params(input: &str, params: &Vec<(String, String)>) -> (r: Option<String>)
    ensures
        opt_string_view(r) == parsed_url_with_params(input@, params_view(params@)),
{
    match reqwest::Url::parse_with_params(input, params.iter()) {
        Ok(url) => Some(url.as_str().to_string()),
        Err(_) => None,
    }
}

/// The address of `endpoint` on the client's local API at `port`; a `/` is
/// put between the port and the endpoint unless the endpoint starts with
/// one.
pub open spec fn uri_text(endpoint: Seq<char>, port: Seq<char>) -> Seq<char> {
    if endpoint.len() > 0 && endpoint[0] == '/' {
        "https://127.0.0.1:"@ + port + endpoint
    } else {
        "https://127.0.0.1:"@ + port + "/"@ + endpoint
    }
}

/// Writing an endpoint with or without its leading `/` names the same
/// address.
pub proof fn lemma_uri_leading_slash(endpoint: Seq<char>, port: Seq<char>)
    requires
        !(endpoint.len() > 0 && endpoint[0] == '/'),
    ensures
        uri_text("/"@ + endpoint, port) == uri_text(endpoint, port),
{
    reveal_strlit("/");
    assert(("/"@ + endpoint)[0] == '/');
    assert("https://127.0.0.1:"@ + port + ("/"@ + endpoint) =~= "https://127.0.0.1:"@ + port + "/"@
        + endpoint);
}

/// `https://127.0.0.1:`, the start of every address of the client's local
/// API.
pub open spec fn local_api_origin() -> Seq<char> {
    seq!['h', 't', 't', 'p', 's', ':', '/', '/', '1', '2', '7', '.', '0', '.', '0', '.', '1', ':']
}

/// The address of an endpoint is `https://127.0.0.1:`, the port, and the
/// whole endpoint, after a `/` when the endpoint does not start with one.
pub proof fn lemma_uri_text_parts(endpoint: Seq<char>, port: Seq<char>)
    ensures
        ({
            let u = uri_text(endpoint, port);
            let k: int = 18 + port.len() as int;
            &&& u.len() >= k
            &&& u.subrange(0, 18) == local_api_origin()
            &&& u.subrange(18, k) == port
            &&& endpoint.len() > 0 && endpoint[0] == '/' ==> u.len() == k + endpoint.len()
                && u.subrange(k, u.len() as int) == endpoint
            &&& !(endpoint.len() > 0 && endpoint[0] == '/') ==> u.len() == k + 1 + endpoint.len()
                && u[k] == '/' && u.subrange(k + 1, u.len() as int) == endpoint
        }),
{
    reveal_strlit("https://127.0.0.1:");
    reveal_strlit("/");
    let o = "https://127.0.0.1:"@;
    assert(o =~= local_api_origin());
    let u = uri_text(endpoint, port);
    let k: int = 18 + port.len() as int;
    if endpoint.len() > 0 && endpoint[0] == '/' {
        assert(u == o + port + endpoint);
        assert(u.subrange(0, 18) =~= o);
        assert(u.subrange(18, k) =~= port);
        assert(u.subrange(k, u.len() as int) =~= endpoint);
    } else {
        assert(u == o + port + "/"@ + endpoint);
        assert(u.subrange(0, 18) =~= o);
        assert(u.subrange(18, k) =~= port);
        assert(u.subrange(k + 1, u.len() as int) =~= endpoint);
    }
}

/// The text of `endpoint`'s address, without parsing it.
pub fn endpoint_uri_text(endpoint: &str, port: &str) -> (r: String)
    ensures
        r@ == uri_text(endpoint@, port@),
{
    let mut uri = String::from_str("https://127.0.0.1:");
    uri.append(port);
    if endpoint.unicode_len() > 0 && endpoint.get_char(0) == '/' {
        uri.append(endpoint);
    } else {
        uri.append("/");
        uri.append(endpoint);
    }
    uri
}

/// What `build_uri` gives: the parsed address of `endpoint`, with the query
/// parameters appended when there are any.
pub open spec fn spec_build_uri(
    endpoint: Seq<char>,
    port: Seq<char>,
    query: Option<Seq<(Seq<char>, Seq<char>)>>,
) -> Result<Seq<char>, ClientError> {
    let parsed = match query {
        None => parsed_url(uri_text(endpoint, port)),
        Some(q) => parsed_url_with_params(uri_text(endpoint, port), q),
    };
    match parsed {
        None => Err(ClientError::UrlParse),
        Some(u) => Ok(u),
    }
}

/// A string result as plain values.
pub open spec fn string_result_view(r: Result<String, ClientError>) -> Result<Seq<char>, ClientError> {
    match r {
        Ok(s) => Ok(s@),
        Err(e) => Err(e),
    }
}

/// Builds the URL of `endpoint` on the client's local API, with optional
/// query parameters.
pub fn build_uri(
    endpoint: &str,
    credentials: &Credentials,
    query: Option<&Vec<(String, String)>>,
) -> (r: Result<String, ClientError>)
    ensures
        string_result_view(r) == spec_build_uri(
            endpoint@,
            credentials.port@,
            match query {
                None => None,
                Some(q) => Some(params_view(q@)),
            },
        ),
{
    let uri = endpoint_uri_text(endpoint, credentials.port.as_str());
    let parsed = match query {
        None => parse_url(uri.as_str()),
        Some(q) => parse_url_with_params(uri.as_str(), q),
    };
    match parsed {
        None => Err(ClientError::UrlParse),
        Some(u) => Ok(u),
    }
}

/// The endpoint that lists the champions of a summoner's inventory.
pub open spec fn spec_champions_endpoint(summoner_id: Seq<char>) -> Seq<char> {
    "/lol-champions/v1/inventories/"@ + summoner_id + "/champions-minimal"@
}

/// The endpoint that lists the champions of `summoner_id`'s inventory.
pub fn champions_endpoint(summoner_id: &str) -> (r: String)
    ensures
        r@ == spec_champions_endpoint(summoner_id@),
{
    let mut e = String::from_str("/lol-champions/v1/inventories/");
    e.append(summoner_id);
    e.append("/champions-minimal");
    e
}

/// The address of the client's WebSocket, with the API password in it.
pub open spec fn spec_socket_url(token: Seq<char>, port: Seq<char>) -> Seq<char> {
    "wss://riot:"@ + token + "@127.0.0.1:"@ + port
}

/// The address of the client's WebSocket for `credentials`.
pub fn socket_url(credentials: &Credentials) -> (r: String)
    ensures
        r@ == spec_socket_url(credentials.token@, credentials.port@),
{
    let mut url = String::from_str("wss://riot:");
    url.append(credentials.token.as_str());
    url.append("@127.0.0.1:");
    url.append(credentials.port.as_str());
    url
}

/// The WebSocket address is `wss://riot:`, the whole token, `@127.0.0.1:`
/// and the whole port.
pub proof fn lemma_socket_url_parts(token: Seq<char>, port: Seq<char>)
    ensures
        ({
            let u = spec_socket_url(token, port);
            let t: int = 11 + token.len() as int;
            &&& u.len() == t + 11 + port.len()
            &&& u.subrange(0, 11) == seq!['w', 's', 's', ':', '/', '/', 'r', 'i', 'o', 't', ':']
            &&& u.subrange(11, t) == token
            &&& u.subrange(t, t + 11) == seq!['@', '1', '2', '7', '.', '0', '.', '0', '.', '1', ':']
            &&& u.subrange(t + 11, u.len() as int) == port
        }),
{
    reveal_strlit("wss://riot:");
    reveal_strlit("@127.0.0.1:");
    let a = "wss://riot:"@;
    let b = "@127.0.0.1:"@;
    assert(a =~= seq!['w', 's', 's', ':', '/', '/', 'r', 'i', 'o', 't', ':']);
    assert(b =~= seq!['@', '1', '2', '7', '.', '0', '.', '0', '.', '1', ':']);
    let u = spec_socket_url(token, port);
    let t: int = 11 + token.len() as int;
    assert(u.subrange(0, 11) =~= a);
    assert(u.subrange(11, t) =~= token);
    assert(u.subrange(t, t + 11) =~= b);
    assert(u.subrange(t + 11, u.len() as int) =~= port);
}

/// The champion-inventory endpoint of a summoner is
/// `/lol-champions/v1/inventories/`, the whole summoner id, and
/// `/champions-minimal`.
pub proof fn lemma_champions_endpoint_parts(summoner_id: Seq<char>)
    ensures
        ({
            let e = spec_champions_endpoint(summoner_id);
            let k: int = 30 + summoner_id.len() as int;
            &&& e.len() == k + 18
            &&& e.subrange(0, 30) == seq!['/', 'l', 'o', 'l', '-', 'c', 'h', 'a', 'm', 'p', 'i', 'o', 'n', 's', '/', 'v', '1', '/', 'i', 'n', 'v', 'e', 'n', 't', 'o', 'r', 'i', 'e', 's', '/']
            &&& e.subrange(30, k) == summoner_id
            &&& e.subrange(k, k + 18) == seq!['/', 'c', 'h', 'a', 'm', 'p', 'i', 'o', 'n', 's', '-', 'm', 'i', 'n', 'i', 'm', 'a', 'l']
        }),
{
    reveal_strlit("/lol-champions/v1/inventories/");
    reveal_strlit("/champions-minimal");
    let a = "/lol-champions/v1/inventories/"@;
    let b = "/champions-minimal"@;
    assert(a =~= seq!['/', 'l', 'o', 'l', '-', 'c', 'h', 'a', 'm', 'p', 'i', 'o', 'n', 's', '/', 'v', '1', '/', 'i', 'n', 'v', 'e', 'n', 't', 'o', 'r', 'i', 'e', 's', '/']);
    assert(b =~= seq!['/', 'c', 'h', 'a', 'm', 'p', 'i', 'o', 'n', 's', '-', 'm', 'i', 'n', 'i', 'm', 'a', 'l']);
    let e = spec_champions_endpoint(summoner_id);
    let k: int = 30 + summoner_id.len() as int;
    assert(e.subrange(0, 30) =~= a);
    assert(e.subrange(30, k) =~= summoner_id);
    assert(e.subrange(k, k + 18) =~= b);
}

} // verus!
