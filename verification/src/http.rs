//! Request-building helpers of the HTTP layer used to fetch remote images.

use vstd::prelude::*;
use vstd::string::StringExecFns;
use crate::text_util::{chars_of, extend_chars, find_first, is_first_match, matches_at, string_from_chars, sub_chars};

verus! {

/// Policy for following redirects when making HTTP requests.
#[derive(Debug, Clone, PartialEq, Eq, Hash, Structural)]
pub enum RedirectPolicy {
    /// Do not follow any redirects.
    NoFollow,
    /// Follow up to this amount of redirects before erroring.
    FollowLimit(u32),
    /// Follow unlimited redirects.
    FollowAll,
}

impl Default for RedirectPolicy {
    fn default() -> (p: Self)
        ensures
            p == RedirectPolicy::NoFollow,
    {
        RedirectPolicy::NoFollow
    }
}

/// The request builder of the `http` crate.
#[verifier::external_type_specification]
#[verifier::external_body]
pub struct ExBuilder(http::request::Builder);

/// Whether a request builder holds an error (a part that did not parse):
/// such a builder keeps it and ignores what is added later.
pub uninterp spec fn builder_has_error(builder: http::request::Builder) -> bool;

/// The redirect policy among a request builder's extensions, if it holds one
/// (the builder's extensions map each type to at most one value).
pub uninterp spec fn builder_redirect_policy(builder: http::request::Builder) -> Option<RedirectPolicy>;

/// `http::request::Builder::extension`: a builder without an error stores
/// the policy among its extensions, replacing an earlier one of the same
/// type; a builder with an error stays as it is.
#[verifier::external_body]
fn builder_extension(builder: http::request::Builder, policy: RedirectPolicy) -> (r: http::request::Builder)
    ensures
        builder_has_error(r) == builder_has_error(builder),
        !builder_has_error(builder) ==> builder_redirect_policy(r) == Some(policy),
        builder_has_error(builder) ==> builder_redirect_policy(r) == builder_redirect_policy(builder),
{
    builder.extension(policy)
}

/// Extensions for request builders.
pub trait HttpRequestExt: Sized {
    /// Conditionally modify self with the given closure.
    fn when<F: FnOnce(Self) -> Self>(self, condition: bool, then: F) -> (r: Self)
        requires
            condition ==> then.requires((self,)),
        ensures
            condition ==> then.ensures((self,), r),
            !condition ==> r == self,
    {
        if condition {
            then(self)
        } else {
            self
        }
    }

    /// Conditionally unwrap and modify self with the given closure, if the
    /// given option is `Some`.
    fn when_some<T, F: FnOnce(Self, T) -> Self>(self, option: Option<T>, then: F) -> (r: Self)
        requires
            option matches Some(v) ==> then.requires((self, v)),
        ensures
            option matches Some(v) ==> then.ensures((self, v), r),
            option is None ==> r == self,
    {
        match option {
            Some(value) => then(self, value),
            None => self,
        }
    }

    /// Whether or not to follow redirects.
    fn follow_redirects(self, follow: RedirectPolicy) -> Self;
}

impl HttpRequestExt for http::request::Builder {
    fn follow_redirects(self, follow: RedirectPolicy) -> (r: Self)
        ensures
            builder_has_error(r) == builder_has_error(self),
            !builder_has_error(self) ==> builder_redirect_policy(r) == Some(follow),
            builder_has_error(self) ==> builder_redirect_policy(r) == builder_redirect_policy(self),
    {
        builder_extension(self, follow)
    }
}

/// A request as plain values, before it is handed to the HTTP client: its
/// method and URI as written, its headers in order, and the redirect policy
/// recorded for it (if any).
pub struct RequestParts {
    pub method: String,
    pub uri: String,
    pub headers: Vec<(String, String)>,
    pub redirect: Option<RedirectPolicy>,
}

impl RequestParts {
    /// A request with the given method and URI, no headers and no redirect
    /// policy.
    pub fn new(method: &str, uri: &str) -> (req: Self)
        ensures
            req.method@ == method@,
            req.uri@ == uri@,
            req.headers@.len() == 0,
            req.redirect is None,
    {
        RequestParts {
            method: <String as StringExecFns>::from_str(method),
            uri: <String as StringExecFns>::from_str(uri),
            headers: Vec::new(),
            redirect: None,
        }
    }

    /// The request with the header `name: value` appended.
    pub fn header(self, name: &str, value: &str) -> (req: Self)
        ensures
            req.method == self.method,
            req.uri == self.uri,
            req.redirect == self.redirect,
            req.headers@.len() == self.headers@.len() + 1,
            req.headers@.take(self.headers@.len() as int) == self.headers@,
            req.headers@.last().0@ == name@,
            req.headers@.last().1@ == value@,
    {
        let mut req = self;
        req.headers.push((<String as StringExecFns>::from_str(name), <String as StringExecFns>::from_str(value)));
        req
    }
}

impl HttpRequestExt for RequestParts {
    fn follow_redirects(self, follow: RedirectPolicy) -> (req: Self)
        ensures
            req.redirect == Some(follow),
            req.method == self.method,
            req.uri == self.uri,
            req.headers == self.headers,
    {
        let mut req = self;
        req.redirect = Some(follow);
        req
    }
}

/// An HTTP client that blocks all requests.
pub struct BlockedHttpClient;

impl BlockedHttpClient {
    /// Creates a new [`BlockedHttpClient`].
    pub fn new() -> (c: Self)
        ensures
            c == BlockedHttpClient,
    {
        BlockedHttpClient
    }
}

/// Whether `http` parses the string as a URI (its `FromStr for Uri`).
pub uninterp spec fn uri_parses(s: Seq<char>) -> bool;

/// Whether `http` parses the string as a URI (`FromStr for http::Uri`
/// succeeds). Which strings parse is the crate's grammar, named `uri_parses`.
#[verifier::external_body]
fn parses_as_uri(s: &str) -> (ok: bool)
    ensures
        ok == uri_parses(s@),
{
    s.parse::<http::Uri>().is_ok()
}

/// The environment variables a proxy is read from, in order of preference.
pub fn proxy_env_vars() -> (names: Vec<&'static str>)
    ensures
        names@.len() == 6,
        names@[0]@ == "ALL_PROXY"@,
        names@[1]@ == "all_proxy"@,
        names@[2]@ == "HTTPS_PROXY"@,
        names@[3]@ == "https_proxy"@,
        names@[4]@ == "HTTP_PROXY"@,
        names@[5]@ == "http_proxy"@,
{
    vec!["ALL_PROXY", "all_proxy", "HTTPS_PROXY", "https_proxy", "HTTP_PROXY", "http_proxy"]
}

/// The index of the first value that is set.
pub open spec fn spec_first_set(values: Seq<Option<String>>) -> Option<int> {
    if exists|i: int| 0 <= i < values.len() && values[i] is Some {
        Some(choose|i: int| 0 <= i < values.len() && values[i] is Some
            && forall|j: int| 0 <= j < i ==> values[j] is None)
    } else {
        None
    }
}

/// The index of the first value that is set, if any is.
pub fn first_set_index(values: &Vec<Option<String>>) -> (r: Option<usize>)
    ensures
        match r {
            Some(i) => i < values@.len() && values@[i as int] is Some
                && forall|j: int| 0 <= j < i ==> values@[j] is None,
            None => forall|j: int| 0 <= j < values@.len() ==> values@[j] is None,
        },
{
    let n = values.len();
    let mut i: usize = 0;
    while i < n
        invariant
            n == values@.len(),
            0 <= i <= n,
            forall|j: int| 0 <= j < i ==> values@[j] is None,
        decreases n - i,
    {
        if values[i].is_some() {
            return Some(i);
        }
        i = i + 1;
    }
    None
}

/// The proxy a client uses: the given proxy URL if there is one and it
/// parses; otherwise the first of the environment values that is set, if it
/// parses (a later one is not tried).
pub open spec fn spec_chosen_proxy(proxy_url: Option<String>, env_values: Seq<Option<String>>) -> Option<Seq<char>> {
    if proxy_url is Some && uri_parses(proxy_url->0@) {
        Some(proxy_url->0@)
    } else {
        match spec_first_set(env_values) {
            Some(i) => if uri_parses(env_values[i]->0@) {
                Some(env_values[i]->0@)
            } else {
                None
            },
            None => None,
        }
    }
}

proof fn lemma_first_set(values: Seq<Option<String>>, i: int)
    requires
        0 <= i < values.len(),
        values[i] is Some,
        forall|j: int| 0 <= j < i ==> values[j] is None,
    ensures
        spec_first_set(values) == Some(i),
{
    let c = choose|k: int| 0 <= k < values.len() && values[k] is Some
        && forall|j: int| 0 <= j < k ==> values[j] is None;
    assert(0 <= c < values.len() && values[c] is Some && forall|j: int| 0 <= j < c ==> values[j] is None);
    if c < i {
        assert(values[c] is None);
    } else if i < c {
        assert(values[i] is None);
    }
}

/// The proxy chosen: a configured URL that parses wins; otherwise the first
/// environment value that is set (counting from the first variable, so
/// `ALL_PROXY` before all others) is used if it parses, and a later one is
/// never tried; with none set, there is no proxy.
pub proof fn lemma_chosen_proxy(proxy_url: Option<String>, env_values: Seq<Option<String>>, i: int)
    ensures
        proxy_url matches Some(p) && uri_parses(p@) ==> spec_chosen_proxy(proxy_url, env_values) == Some(proxy_url->0@),
        !(proxy_url matches Some(p) && uri_parses(p@)) && 0 <= i < env_values.len() && env_values[i] is Some
            && (forall|j: int| 0 <= j < i ==> env_values[j] is None) ==> spec_chosen_proxy(proxy_url, env_values) == (
            if uri_parses(env_values[i]->0@) {
                Some(env_values[i]->0@)
            } else {
                None
            }),
        !(proxy_url matches Some(p) && uri_parses(p@)) && (forall|j: int| 0 <= j < env_values.len() ==> env_values[j] is None)
            ==> spec_chosen_proxy(proxy_url, env_values) is None,
{
    if 0 <= i < env_values.len() && env_values[i] is Some && (forall|j: int| 0 <= j < i ==> env_values[j] is None) {
        lemma_first_set(env_values, i);
    }
}

/// Chooses the proxy of an HTTP client from the configured proxy URL and the
/// values of the proxy environment variables (in the order of
/// [`proxy_env_vars`], `None` where one is not set): the URL of the proxy,
/// as [`spec_chosen_proxy`] says; it parses as a URI.
pub fn choose_proxy(proxy_url: Option<String>, env_values: Vec<Option<String>>) -> (r: Option<String>)
    ensures
        match r {
            Some(chosen) => spec_chosen_proxy(proxy_url, env_values@) == Some(chosen@) && uri_parses(chosen@),
            None => spec_chosen_proxy(proxy_url, env_values@) is None,
        },
{
    if let Some(p) = proxy_url {
        if parses_as_uri(p.as_str()) {
            return Some(p);
        }
    }
    match first_set_index(&env_values) {
        Some(i) => {
            proof {
                lemma_first_set(env_values@, i as int);
            }
            match &env_values[i] {
                Some(s) => if parses_as_uri(s.as_str()) {
                    Some(s.clone())
                } else {
                    None
                },
                None => None,
            }
        },
        None => {
            assert(spec_first_set(env_values@) is None);
            None
        },
    }
}

/// The redirect policy of a request: follow all redirects, or none.
pub fn redirect_policy(follow_redirects: bool) -> (p: RedirectPolicy)
    ensures
        p == (if follow_redirects {
            RedirectPolicy::FollowAll
        } else {
            RedirectPolicy::NoFollow
        }),
{
    if follow_redirects {
        RedirectPolicy::FollowAll
    } else {
        RedirectPolicy::NoFollow
    }
}

/// A `GET` request to `uri`, following redirects or not (the body is added
/// when it is sent); `None` where the URI does not parse, so that no
/// request is made.
pub fn get_request(uri: &str, follow_redirects: bool) -> (req: Option<RequestParts>)
    ensures
        req is Some <==> uri_parses(uri@),
        req matches Some(r) ==> {
            &&& r.method@ == "GET"@
            &&& r.uri@ == uri@
            &&& r.headers@.len() == 0
            &&& r.redirect == Some(
                if follow_redirects {
                    RedirectPolicy::FollowAll
                } else {
                    RedirectPolicy::NoFollow
                },
            )
        },
{
    if !parses_as_uri(uri) {
        return None;
    }
    Some(RequestParts::new("GET", uri).follow_redirects(redirect_policy(follow_redirects)))
}

/// A `POST` request of JSON to `uri` (the body is added when it is sent);
/// `None` where the URI does not parse, so that no request is made.
pub fn post_json_request(uri: &str) -> (req: Option<RequestParts>)
    ensures
        req is Some <==> uri_parses(uri@),
        req matches Some(r) ==> {
            &&& r.method@ == "POST"@
            &&& r.uri@ == uri@
            &&& r.headers@.len() == 1
            &&& r.headers@[0].0@ == "Content-Type"@
            &&& r.headers@[0].1@ == "application/json"@
            &&& r.redirect is None
        },
{
    if !parses_as_uri(uri) {
        return None;
    }
    Some(RequestParts::new("POST", uri).header("Content-Type", "application/json"))
}

/// The URL for `path` on a server: the base URL followed by the path.
pub fn build_url(base_url: &str, path: &str) -> (url: String)
    ensures
        url@ == base_url@ + path@,
{
    let base = <String as StringExecFns>::from_str(base_url);
    base.concat(path)
}

/// The first index of `pat` in `s`, if it occurs.
pub open spec fn first_index(s: Seq<char>, pat: Seq<char>) -> Option<int> {
    if exists|i: int| is_first_match(s, pat, i) {
        Some(choose|i: int| is_first_match(s, pat, i))
    } else {
        None
    }
}

/// A query string with the value of its API key hidden: the text after the
/// first `key=` (or, if there is none, the first `Key=`) up to the first `&`
/// of the query (or its end) becomes `REDACTED`. `None` when the query holds
/// no key.
pub open spec fn spec_redact_query(query: Seq<char>) -> Option<Seq<char>> {
    let at = match first_index(query, "key="@) {
        Some(i) => Some(i),
        None => first_index(query, "Key="@),
    };
    match at {
        Some(i) => {
            let pos = i + 4;
            let end = match first_index(query, "&"@) {
                Some(j) => j,
                None => query.len() as int,
            };
            Some(query.subrange(0, pos) + "REDACTED"@ + query.subrange(end, query.len() as int))
        },
        None => None,
    }
}

proof fn lemma_first_index(s: Seq<char>, pat: Seq<char>, i: int)
    requires
        is_first_match(s, pat, i),
    ensures
        first_index(s, pat) == Some(i),
{
    let c = choose|k: int| is_first_match(s, pat, k);
    if c < i {
        assert(!matches_at(s, pat, c));
    } else if i < c {
        assert(!matches_at(s, pat, i));
    }
}

/// The first index of `pat` in `s`.
fn find_index(s: &Vec<char>, pat: &Vec<char>) -> (r: Option<usize>)
    ensures
        match r {
            Some(i) => first_index(s@, pat@) == Some(i as int),
            None => first_index(s@, pat@) is None,
        },
{
    let r = find_first(s, pat);
    proof {
        if let Some(i) = r {
            lemma_first_index(s@, pat@, i as int);
        }
    }
    r
}

/// Hides the API key in a request's query string (so that it does not show
/// up in error messages): see [`spec_redact_query`].
pub fn redact_query(query: &str) -> (redacted: Option<String>)
    ensures
        match redacted {
            Some(r) => spec_redact_query(query@) == Some(r@),
            None => spec_redact_query(query@) is None,
        },
{
    proof {
        reveal_strlit("key=");
        reveal_strlit("Key=");
        reveal_strlit("&");
        reveal_strlit("REDACTED");
    }
    let chars = chars_of(query);
    let lower = chars_of("key=");
    let upper = chars_of("Key=");
    let amp = chars_of("&");
    let at = match find_index(&chars, &lower) {
        Some(i) => Some(i),
        None => find_index(&chars, &upper),
    };
    match at {
        None => None,
        Some(i) => {
            let n = chars.len();
            assert(i + 4 <= n);
            let pos = i + 4;
            let end = match find_index(&chars, &amp) {
                Some(j) => j,
                None => n,
            };
            let mut out = sub_chars(&chars, 0, pos);
            let redacted = chars_of("REDACTED");
            extend_chars(&mut out, &redacted);
            let rest = sub_chars(&chars, end, n);
            extend_chars(&mut out, &rest);
            Some(string_from_chars(out.as_slice()))
        },
    }
}

} // verus!
