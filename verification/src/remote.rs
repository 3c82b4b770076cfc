//! The transport client for a remote deployment of the service.
//!
//! [`RestfulLanceDbClient`] resolves a logical database URL into a concrete
//! host, computes the default headers every request carries, builds GET and
//! POST requests against that host, and classifies responses by status.
//! Requests are transmitted through a pluggable [`HttpSend`] capability
//! chosen at construction time, so request building can be exercised against
//! a deterministic sender without a live network.

use vstd::prelude::*;

use crate::error::Error;
use crate::strings::str_eq;

verus! {

/// The HTTP method of a request built by the client.
#[derive(Debug, Clone, Copy, PartialEq, Eq, Structural)]
pub enum HttpMethod {
    Get,
    Post,
}

/// A request built by the client: everything a sender needs to transmit it.
#[derive(Debug, Clone)]
pub struct HttpRequest {
    pub method: HttpMethod,
    pub url: String,
    pub headers: Vec<(String, String)>,
    pub body: Option<Vec<u8>>,
}

/// A response as the client classifies it: the status code and the response
/// body read into text. A sender that cannot read the body substitutes the
/// status text.
#[derive(Debug, Clone)]
pub struct HttpResponse {
    pub status: u16,
    pub body: String,
}

/// The send capability: transmits a built request and hands back the
/// response. A production implementation is backed by a real connection
/// pool; a test implementation computes the response from the request
/// deterministically. Nothing is promised of the outcome: the network, or
/// the substituted sender, decides it.
pub trait HttpSend: Sized {
    fn send(&self, request: HttpRequest) -> Result<HttpResponse, Error>;
}

/// Whether a character may appear in an HTTP header value: visible ASCII,
/// space, or horizontal tab.
pub open spec fn valid_header_char(c: char) -> bool {
    c == '\t' || (32 <= c as u32 && c as u32 <= 126)
}

/// Whether a string may be carried as an HTTP header value.
pub open spec fn valid_header_value(s: Seq<char>) -> bool {
    forall|i: int| 0 <= i < s.len() ==> valid_header_char(#[trigger] s[i])
}

/// The message reported for an API key that cannot be a header value.
pub open spec fn bad_api_key_message() -> Seq<char> {
    "non-ascii api key provided"@
}

/// The message reported for a database name that cannot be a header value.
pub open spec fn bad_db_name_message(db_name: Seq<char>) -> Seq<char> {
    "non-ascii database name '"@ + db_name + "' provided"@
}

/// The message reported for a database URL without a host component.
pub open spec fn missing_host_message(db_url: Seq<char>) -> Seq<char> {
    "Invalid database URL (missing host) '"@ + db_url + "'"@
}

/// The `Host` header value synthesized for requests against the `local`
/// region: the production-shaped hostname of the database.
pub open spec fn local_host_header(db_name: Seq<char>) -> Seq<char> {
    db_name + ".local.api.lancedb.com"@
}

/// The host resolved from a database name and region when no override is
/// supplied.
pub open spec fn derived_host(db_name: Seq<char>, region: Seq<char>) -> Seq<char> {
    "https://"@ + db_name + "."@ + region + ".api.lancedb.com"@
}

/// The default headers of every request: the API key, a `Host` header for
/// the `local` region (the override of the hostname the loopback cannot
/// carry), and the database-name header when an explicit host override
/// replaces the name-bearing hostname.
pub open spec fn expected_headers(
    api_key: Seq<char>,
    region: Seq<char>,
    db_name: Seq<char>,
    has_host_override: bool,
) -> Seq<(Seq<char>, Seq<char>)> {
    seq![("x-api-key"@, api_key)] + (if region == "local"@ {
        seq![("Host"@, local_host_header(db_name))]
    } else {
        Seq::empty()
    }) + (if has_host_override {
        seq![("x-lancedb-database"@, db_name)]
    } else {
        Seq::empty()
    })
}

/// Whether the default headers can be built at all: the API key must be a
/// valid header value, and so must the database name whenever it is carried
/// in a header (for the `local` region or under a host override).
pub open spec fn headers_ok(
    api_key: Seq<char>,
    region: Seq<char>,
    db_name: Seq<char>,
    has_host_override: bool,
) -> bool {
    valid_header_value(api_key) && ((region == "local"@ || has_host_override)
        ==> valid_header_value(db_name))
}

/// The message reported when the default headers cannot be built.
pub open spec fn headers_err_message(api_key: Seq<char>, db_name: Seq<char>) -> Seq<char> {
    if !valid_header_value(api_key) {
        bad_api_key_message()
    } else {
        bad_db_name_message(db_name)
    }
}

/// What the result of the url crate's host extraction is for a given input
/// string: `None` when the string is not an absolute URL or has no host
/// component, and the host text otherwise.
pub uninterp spec fn url_host_of(s: Seq<char>) -> Option<Seq<char>>;

/// Relies on url::Url::parse and url::Url::host_str: parsing is a pure
/// function of the input string alone, and `host_str` returns the string
/// representation of the URL's host exactly when the URL has one.
#[verifier::external_body]
fn parse_url_host(s: &str) -> (r: Option<String>)
    ensures
        match r {
            Some(h) => url_host_of(s@) == Some(h@),
            None => url_host_of(s@) is None,
        },
{
    match url::Url::parse(s) {
        Ok(u) => match u.host_str() {
            Some(h) => Some(h.to_string()),
            None => None,
        },
        Err(_) => None,
    }
}

/// Whether a string may be carried as an HTTP header value.
pub fn header_value_is_valid(s: &str) -> (r: bool)
    ensures
        r == valid_header_value(s@),
{
    let n: usize = s.unicode_len();
    let mut i: usize = 0;
    while i < n
        invariant
            i <= n,
            n == s@.len(),
            forall|j: int| 0 <= j < i ==> valid_header_char(#[trigger] s@[j]),
        decreases n - i,
    {
        let c = s.get_char(i);
        let code = c as u32;
        if !(c == '\t' || (32 <= code && code <= 126)) {
            return false;
        }
        i = i + 1;
    }
    true
}

/// Builds the error for a database name that cannot be a header value.
fn bad_db_name_error(db_name: &str) -> (r: Error)
    ensures
        r matches Error::InvalidInput { message } && message@ == bad_db_name_message(db_name@),
{
    let mut message = String::new();
    message.append("non-ascii database name '");
    message.append(db_name);
    message.append("' provided");
    proof {
        assert(message@ =~= bad_db_name_message(db_name@));
    }
    Error::InvalidInput { message }
}

/// Computes the default headers carried by every request of a client for
/// the given database: the API key header always; a `Host` header for the
/// `local` region; the database-name header under a host override. Fails
/// exactly when a value to be carried is not a valid header value.
pub fn default_headers(
    api_key: &str,
    region: &str,
    db_name: &str,
    has_host_override: bool,
) -> (r: Result<Vec<(String, String)>, Error>)
    ensures
        r matches Ok(h) ==> headers_ok(api_key@, region@, db_name@, has_host_override)
            && h.deep_view() == expected_headers(api_key@, region@, db_name@, has_host_override),
        r matches Err(e) ==> !headers_ok(api_key@, region@, db_name@, has_host_override) && (
        e matches Error::InvalidInput { message } && message@ == headers_err_message(
            api_key@,
            db_name@,
        )),
{
    if !header_value_is_valid(api_key) {
        return Err(Error::InvalidInput { message: String::from_str("non-ascii api key provided") });
    }
    let mut headers: Vec<(String, String)> = Vec::new();
    headers.push((String::from_str("x-api-key"), api_key.to_owned()));
    if str_eq(region, "local") {
        if !header_value_is_valid(db_name) {
            return Err(bad_db_name_error(db_name));
        }
        let mut host_value: String = db_name.to_owned();
        host_value.append(".local.api.lancedb.com");
        proof {
            assert(host_value@ =~= local_host_header(db_name@));
        }
        headers.push((String::from_str("Host"), host_value));
    }
    if has_host_override {
        if !header_value_is_valid(db_name) {
            return Err(bad_db_name_error(db_name));
        }
        headers.push((String::from_str("x-lancedb-database"), db_name.to_owned()));
    }
    proof {
        assert(headers.deep_view() =~= expected_headers(
            api_key@,
            region@,
            db_name@,
            has_host_override,
        ));
    }
    Ok(headers)
}

/// Clones a header list.
fn clone_headers(headers: &Vec<(String, String)>) -> (r: Vec<(String, String)>)
    ensures
        r@ == headers@,
{
    let mut out: Vec<(String, String)> = Vec::new();
    let n = headers.len();
    let mut i: usize = 0;
    while i < n
        invariant
            i <= n,
            n == headers@.len(),
            out@ == headers@.subrange(0, i as int),
        decreases n - i,
    {
        let name = headers[i].0.clone();
        let value = headers[i].1.clone();
        out.push((name, value));
        proof {
            assert(out@ =~= headers@.subrange(0, (i + 1) as int));
        }
        i = i + 1;
    }
    proof {
        assert(headers@.subrange(0, n as int) =~= headers@);
    }
    out
}

/// A client for a remote deployment: a resolved host, the default headers
/// every request carries, and the pluggable send capability. Immutable after
/// construction.
pub struct RestfulLanceDbClient<S: HttpSend> {
    host: String,
    default_headers: Vec<(String, String)>,
    sender: S,
}

impl<S: HttpSend> RestfulLanceDbClient<S> {
    /// The host this client addresses.
    pub closed spec fn spec_host(&self) -> Seq<char> {
        self.host@
    }

    /// The default headers every request of this client carries.
    pub closed spec fn spec_headers(&self) -> Seq<(Seq<char>, Seq<char>)> {
        self.default_headers.deep_view()
    }

    /// Resolves the logical database URL `db://<name>` into a concrete host
    /// — `https://<name>.<region>.api.lancedb.com`, unless an explicit host
    /// override is supplied — computes the default headers, and wires in the
    /// given sender. Fails when the URL has no host component, or when a
    /// header value cannot be carried.
    pub fn try_new(
        db_url: &str,
        api_key: &str,
        region: &str,
        host_override: Option<String>,
        sender: S,
    ) -> (r: Result<Self, Error>)
        ensures
            url_host_of(db_url@) is None ==> (r matches Err(Error::InvalidInput { message })
                && message@ == missing_host_message(db_url@)),
            url_host_of(db_url@) matches Some(db_name) ==> ({
                if !headers_ok(api_key@, region@, db_name, host_override is Some) {
                    r matches Err(Error::InvalidInput { message }) && message@
                        == headers_err_message(api_key@, db_name)
                } else {
                    r matches Ok(c) && c.spec_headers() == expected_headers(
                        api_key@,
                        region@,
                        db_name,
                        host_override is Some,
                    ) && c.spec_host() == (match host_override {
                        Some(h) => h@,
                        None => derived_host(db_name, region@),
                    })
                }
            }),
    {
        let db_name = match parse_url_host(db_url) {
            Some(h) => h,
            None => {
                let mut message = String::new();
                message.append("Invalid database URL (missing host) '");
                message.append(db_url);
                message.append("'");
                proof {
                    assert(message@ =~= missing_host_message(db_url@));
                }
                return Err(Error::InvalidInput { message });
            },
        };
        let headers = match default_headers(
            api_key,
            region,
            db_name.as_str(),
            host_override.is_some(),
        ) {
            Ok(h) => h,
            Err(e) => {
                return Err(e);
            },
        };
        let host = match host_override {
            Some(h) => h,
            None => {
                let mut host = String::new();
                host.append("https://");
                host.append(db_name.as_str());
                host.append(".");
                host.append(region);
                host.append(".api.lancedb.com");
                proof {
                    assert(host@ =~= derived_host(db_name@, region@));
                }
                host
            },
        };
        Ok(RestfulLanceDbClient { host, default_headers: headers, sender })
    }

    /// The host this client addresses.
    pub fn host(&self) -> (r: &str)
        ensures
            r@ == self.spec_host(),
    {
        self.host.as_str()
    }

    /// Builds a request against the client's host: the URL is the host
    /// followed by the given path, and the request carries exactly the
    /// default headers and no body.
    fn request(&self, method: HttpMethod, uri: &str) -> (r: HttpRequest)
        ensures
            r.method == method,
            r.url@ == self.spec_host() + uri@,
            r.headers.deep_view() == self.spec_headers(),
            r.body is None,
    {
        let mut url: String = String::new();
        url.append(self.host.as_str());
        url.append(uri);
        HttpRequest { method, url, headers: clone_headers(&self.default_headers), body: None }
    }

    /// Builds a GET request for the given path against the client's host.
    pub fn get(&self, uri: &str) -> (r: HttpRequest)
        ensures
            r.method == HttpMethod::Get,
            r.url@ == self.spec_host() + uri@,
            r.headers.deep_view() == self.spec_headers(),
            r.body is None,
    {
        self.request(HttpMethod::Get, uri)
    }

    /// Builds a POST request for the given path against the client's host.
    pub fn post(&self, uri: &str) -> (r: HttpRequest)
        ensures
            r.method == HttpMethod::Post,
            r.url@ == self.spec_host() + uri@,
            r.headers.deep_view() == self.spec_headers(),
            r.body is None,
    {
        self.request(HttpMethod::Post, uri)
    }

    /// Transmits a request through the pluggable sender. What comes back is
    /// the sender's decision; retry policy is a caller concern.
    pub fn send(&self, request: HttpRequest) -> Result<HttpResponse, Error> {
        self.sender.send(request)
    }

    /// Classifies a response: status 200 is success and hands the response
    /// back; a status in [400, 500) is invalid input carrying the response
    /// body; any other status is a runtime error carrying the response body.
    pub fn check_response(&self, response: HttpResponse) -> (r: Result<HttpResponse, Error>)
        ensures
            400 <= response.status < 500 ==> (r matches Err(Error::InvalidInput { message })
                && message@ == response.body@),
            !(400 <= response.status < 500) && response.status != 200 ==> (r matches Err(
                Error::Runtime { message },
            ) && message@ == response.body@),
            response.status == 200 ==> (r matches Ok(resp) && resp.status == 200 && resp.body@
                == response.body@),
    {
        let status = response.status;
        if 400 <= status && status < 500 {
            Err(Error::InvalidInput { message: response.body })
        } else if status != 200 {
            Err(Error::Runtime { message: response.body })
        } else {
            Ok(response)
        }
    }
}

} // verus!
