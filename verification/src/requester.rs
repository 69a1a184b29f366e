//! The headers of a probe request and the request itself.
//!
//! A probe asks the target server for `/` while naming, in its `Host`
//! header, the virtual host under test.

use vstd::prelude::*;

use reqwest::header::{HeaderMap, HeaderValue};

verus! {

broadcast use vstd::string::group_string_axioms;

#[verifier::external_type_specification]
#[verifier::external_body]
#[verifier::reject_recursive_types(T)]
pub struct ExHeaderMap<T>(HeaderMap<T>);

#[verifier::external_type_specification]
#[verifier::external_body]
pub struct ExHeaderValue(HeaderValue);

/// What a header map holds: for each header name (lower case) its value.
pub uninterp spec fn header_entries(map: HeaderMap) -> Map<Seq<char>, Seq<char>>;

/// A character that may stand in a header value: a visible or blank
/// character (anything from the space on, but the delete control), or a tab.
pub open spec fn is_header_value_char(c: char) -> bool {
    (c >= ' ' && c != '\x7f') || c == '\t'
}

/// Text that `HeaderValue::from_str` accepts: every byte of its UTF-8 form
/// is at least 32 and not 127, or is a tab. A character outside ASCII is
/// encoded in bytes of 128 and more, so this is a condition on characters.
pub open spec fn valid_header_value(s: Seq<char>) -> bool {
    forall|i: int| 0 <= i < s.len() ==> is_header_value_char(#[trigger] s[i])
}

/// A header name that `HeaderName::from_static` accepts: non-empty, of at
/// most 64 KiB, and made of lower-case letters, digits and `-`.
pub open spec fn valid_header_name(s: Seq<char>) -> bool {
    &&& 0 < s.len() <= 65535
    &&& forall|i: int|
        0 <= i < s.len() ==> ('a' <= #[trigger] s[i] <= 'z' || '0' <= s[i] <= '9' || s[i] == '-')
}

/// The contents of a header map that holds no header.
pub open spec fn no_headers() -> Map<Seq<char>, Seq<char>> {
    Map::empty()
}

/// An empty header map (`HeaderMap::new`).
/// Claimed: it holds no header.
#[verifier::external_body]
fn header_map_new() -> (empty: HeaderMap)
    ensures
        header_entries(empty) == no_headers(),
{
    HeaderMap::new()
}

/// Sets a header (`HeaderMap::insert`, with the name converted by
/// `HeaderName::from_static` and the value by `HeaderValue::from_str`).
/// Claimed: the header's value becomes `value` and any earlier value of it
/// is gone; the other headers stay. The conversions succeed on the admitted
/// names and values; the map grows far below its capacity limit here.
#[verifier::external_body]
fn header_map_insert(map: &mut HeaderMap, name: &'static str, value: &str)
    requires
        valid_header_name(name@),
        valid_header_value(value@),
        header_entries(*old(map)).dom().len() < 1024,
    ensures
        header_entries(*final(map)) == header_entries(*old(map)).insert(name@, value@),
{
    map.insert(
        reqwest::header::HeaderName::from_static(name),
        HeaderValue::from_str(value).unwrap(),
    );
}

/// Whether text may be used as a header value.
pub fn is_valid_header_value(s: &str) -> (valid: bool)
    ensures
        valid == valid_header_value(s@),
{
    for c in it: s.chars()
        invariant
            it.seq() == s@,
            forall|j: int| 0 <= j < it.index() ==> is_header_value_char(#[trigger] s@[j]),
    {
        assert(c == s@[it.index() as int]);
        if !((c >= ' ' && c != '\x7f') || c == '\t') {
            return false;
        }
    }
    true
}

// The header names of a probe request.
pub const HOST: &'static str = "host";
pub const USER_AGENT: &'static str = "user-agent";
pub const ACCEPT_LANGUAGE: &'static str = "accept-language";
pub const ACCEPT_ENCODING: &'static str = "accept-encoding";
pub const ACCEPT: &'static str = "accept";
pub const CONNECTION: &'static str = "connection";

// The fixed header values of a probe request.
pub const ACCEPT_LANGUAGE_VALUE: &'static str = "en-US";
pub const ACCEPT_ENCODING_VALUE: &'static str = "gzip, deflate, br";
pub const ACCEPT_VALUE: &'static str = "*/*";
pub const CONNECTION_VALUE: &'static str = "close";

/// The headers of a probe for `vhost` sent with `user_agent`.
pub open spec fn probe_headers(vhost: Seq<char>, user_agent: Seq<char>) -> Map<Seq<char>, Seq<char>> {
    no_headers()
        .insert(HOST@, vhost)
        .insert(USER_AGENT@, user_agent)
        .insert(ACCEPT_LANGUAGE@, ACCEPT_LANGUAGE_VALUE@)
        .insert(ACCEPT_ENCODING@, ACCEPT_ENCODING_VALUE@)
        .insert(ACCEPT@, ACCEPT_VALUE@)
        .insert(CONNECTION@, CONNECTION_VALUE@)
}

/// The values of the headers of a probe request.
pub struct RequestHeaders {
    pub vhost: String,
    pub user_agent: String,
    pub accept_lang: String,
    pub accept_enc: String,
    pub accept: String,
    pub conn_state: String,
}

impl RequestHeaders {
    /// All values are valid header values.
    pub open spec fn wf(&self) -> bool {
        &&& valid_header_value(self.vhost@)
        &&& valid_header_value(self.user_agent@)
        &&& valid_header_value(self.accept_lang@)
        &&& valid_header_value(self.accept_enc@)
        &&& valid_header_value(self.accept@)
        &&& valid_header_value(self.conn_state@)
    }

    /// The header values for a virtual host and a user agent.
    pub fn raw(vhost: String, user_agent: String) -> (h: RequestHeaders)
        requires
            valid_header_value(vhost@),
            valid_header_value(user_agent@),
        ensures
            h.wf(),
            h.vhost@ == vhost@,
            h.user_agent@ == user_agent@,
            h.accept_lang@ == ACCEPT_LANGUAGE_VALUE@,
            h.accept_enc@ == ACCEPT_ENCODING_VALUE@,
            h.accept@ == ACCEPT_VALUE@,
            h.conn_state@ == CONNECTION_VALUE@,
    {
        proof {
            reveal_strlit("en-US");
            reveal_strlit("gzip, deflate, br");
            reveal_strlit("*/*");
            reveal_strlit("close");
        }
        RequestHeaders {
            vhost,
            user_agent,
            accept_lang: ACCEPT_LANGUAGE_VALUE.to_owned(),
            accept_enc: ACCEPT_ENCODING_VALUE.to_owned(),
            accept: ACCEPT_VALUE.to_owned(),
            conn_state: CONNECTION_VALUE.to_owned(),
        }
    }

    /// The header map of a probe for a virtual host, sent with a user agent.
    pub fn new(vhost: String, user_agent: String) -> (headers: HeaderMap)
        requires
            valid_header_value(vhost@),
            valid_header_value(user_agent@),
        ensures
            header_entries(headers) == probe_headers(vhost@, user_agent@),
    {
        proof {
            reveal_strlit("host");
            reveal_strlit("user-agent");
            reveal_strlit("accept-language");
            reveal_strlit("accept-encoding");
            reveal_strlit("accept");
            reveal_strlit("connection");
        }
        let values = RequestHeaders::raw(vhost, user_agent);
        let mut headers = header_map_new();
        header_map_insert(&mut headers, HOST, values.vhost.as_str());
        header_map_insert(&mut headers, USER_AGENT, values.user_agent.as_str());
        header_map_insert(&mut headers, ACCEPT_LANGUAGE, values.accept_lang.as_str());
        header_map_insert(&mut headers, ACCEPT_ENCODING, values.accept_enc.as_str());
        header_map_insert(&mut headers, ACCEPT, values.accept.as_str());
        header_map_insert(&mut headers, CONNECTION, values.conn_state.as_str());
        headers
    }
}

/// A probe request: where to send it and with which headers.
pub struct Requester {
    pub url: String,
    pub headers: HeaderMap,
}

impl Requester {
    /// A probe of `vhost` at the server `url`, sent with the user agent `agent`.
    pub fn new(vhost: &str, url: String, agent: String) -> (r: Requester)
        requires
            valid_header_value(vhost@),
            valid_header_value(agent@),
        ensures
            r.url@ == url@,
            header_entries(r.headers) == probe_headers(vhost@, agent@),
    {
        let headers = RequestHeaders::new(vhost.to_owned(), agent);
        Requester { url, headers }
    }
}

/// Law: a probe carries exactly six headers; its `Host` header names the
/// virtual host under test and its `User-Agent` header the chosen agent.
pub proof fn lemma_probe_headers(vhost: Seq<char>, user_agent: Seq<char>)
    ensures
        probe_headers(vhost, user_agent).dom().len() == 6,
        probe_headers(vhost, user_agent)[HOST@] == vhost,
        probe_headers(vhost, user_agent)[USER_AGENT@] == user_agent,
        probe_headers(vhost, user_agent)[ACCEPT_LANGUAGE@] == "en-US"@,
        probe_headers(vhost, user_agent)[ACCEPT_ENCODING@] == "gzip, deflate, br"@,
        probe_headers(vhost, user_agent)[ACCEPT@] == "*/*"@,
        probe_headers(vhost, user_agent)[CONNECTION@] == "close"@,
        probe_headers(vhost, user_agent).dom() == set!["host"@, "user-agent"@, "accept-language"@,
            "accept-encoding"@, "accept"@, "connection"@],
{
    reveal_strlit("host");
    reveal_strlit("user-agent");
    reveal_strlit("accept-language");
    reveal_strlit("accept-encoding");
    reveal_strlit("accept");
    reveal_strlit("connection");
    let names = set![HOST@, USER_AGENT@, ACCEPT_LANGUAGE@, ACCEPT_ENCODING@, ACCEPT@, CONNECTION@];
    assert(probe_headers(vhost, user_agent).dom() =~= names);
    assert(HOST@.len() == 4);
    assert(USER_AGENT@.len() == 10);
    assert(ACCEPT_LANGUAGE@.len() == 15);
    assert(ACCEPT_ENCODING@.len() == 15);
    assert(ACCEPT@.len() == 6);
    assert(CONNECTION@.len() == 10);
    assert(ACCEPT_LANGUAGE@[7] != ACCEPT_ENCODING@[7]);
    assert(USER_AGENT@[0] != CONNECTION@[0]);
    assert(HOST@ != USER_AGENT@);
    assert(HOST@ != ACCEPT_LANGUAGE@);
    assert(HOST@ != ACCEPT_ENCODING@);
    assert(HOST@ != ACCEPT@);
    assert(HOST@ != CONNECTION@);
    assert(USER_AGENT@ != ACCEPT_LANGUAGE@);
    assert(USER_AGENT@ != ACCEPT_ENCODING@);
    assert(USER_AGENT@ != ACCEPT@);
    assert(USER_AGENT@ != CONNECTION@);
    assert(ACCEPT_LANGUAGE@ != ACCEPT_ENCODING@);
    assert(ACCEPT_LANGUAGE@ != ACCEPT@);
    assert(ACCEPT_LANGUAGE@ != CONNECTION@);
    assert(ACCEPT_ENCODING@ != ACCEPT@);
    assert(ACCEPT_ENCODING@ != CONNECTION@);
    assert(ACCEPT@ != CONNECTION@);
    assert(names.len() == 6);
}

} // verus!
