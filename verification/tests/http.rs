use lucie::http::{
    build_url, choose_proxy, first_set_index, get_request, post_json_request, redact_query, redirect_policy, BlockedHttpClient,
    HttpRequestExt, RedirectPolicy, RequestParts,
};

#[test]
fn builder_records_redirect_policy() {
    let builder = http::request::Builder::new().follow_redirects(RedirectPolicy::FollowLimit(3));
    assert_eq!(builder.extensions_ref().unwrap().get::<RedirectPolicy>(), Some(&RedirectPolicy::FollowLimit(3)));
}

#[test]
fn when_applies_only_on_condition() {
    let b = http::request::Builder::new().when(true, |b| b.method("POST")).when(false, |b| b.method("PUT"));
    assert_eq!(b.method_ref(), Some(&http::Method::POST));
    let b = http::request::Builder::new().when_some(Some("http://example.com/x"), |b, uri| b.uri(uri)).when_some(None::<&str>, |b, uri| b.uri(uri));
    assert_eq!(b.uri_ref().unwrap().path(), "/x");
}

#[test]
fn redirect_policy_default_is_no_follow() {
    assert_eq!(RedirectPolicy::default(), RedirectPolicy::NoFollow);
}

#[test]
fn blocked_client_constructs() {
    let _client = BlockedHttpClient::new();
}

#[test]
fn url_is_base_then_path() {
    assert_eq!(build_url("https://lucie.dev", "/api/v1"), "https://lucie.dev/api/v1");
    assert_eq!(build_url("", "x"), "x");
}

#[test]
fn key_value_is_redacted() {
    assert_eq!(redact_query("key=secret123&page=2").as_deref(), Some("key=REDACTED&page=2"));
    assert_eq!(redact_query("page=2&Key=abc").as_deref(), Some("page=2&Key=REDACTED&Key=abc"));
    assert_eq!(redact_query("a=1&key=xyz").as_deref(), Some("a=1&key=REDACTED&key=xyz"));
    assert_eq!(redact_query("token=abc"), None);
    assert_eq!(redact_query("key=abc").as_deref(), Some("key=REDACTED"));
}

#[test]
fn proxy_env_vars_in_order() {
    assert_eq!(
        lucie::http::proxy_env_vars(),
        vec!["ALL_PROXY", "all_proxy", "HTTPS_PROXY", "https_proxy", "HTTP_PROXY", "http_proxy"]
    );
}

#[test]
fn first_set_value_is_found() {
    assert_eq!(first_set_index(&vec![None, None]), None);
    assert_eq!(first_set_index(&vec![None, Some("a".to_string()), Some("b".to_string())]), Some(1));
    assert_eq!(first_set_index(&vec![]), None);
}

#[test]
fn given_proxy_wins_when_it_parses() {
    let env = vec![None, Some("http://env:1".to_string())];
    assert_eq!(choose_proxy(Some("http://localhost:10809".to_string()), env.clone()).as_deref(), Some("http://localhost:10809"));
    // a given URL that does not parse falls back to the environment
    assert_eq!(choose_proxy(Some("not a uri".to_string()), env.clone()).as_deref(), Some("http://env:1"));
    assert_eq!(choose_proxy(None, env).as_deref(), Some("http://env:1"));
}

#[test]
fn only_first_set_env_value_is_tried() {
    let env = vec![None, Some("bad uri".to_string()), Some("http://later:2".to_string())];
    assert!(choose_proxy(None, env).is_none());
    assert!(choose_proxy(None, vec![None; 6]).is_none());
}

#[test]
fn get_request_sets_uri_and_policy() {
    assert_eq!(redirect_policy(true), RedirectPolicy::FollowAll);
    assert_eq!(redirect_policy(false), RedirectPolicy::NoFollow);
    let req = get_request("http://example.com/a", true).unwrap();
    assert_eq!(req.method, "GET");
    assert_eq!(req.uri, "http://example.com/a");
    assert!(req.headers.is_empty());
    assert_eq!(req.redirect, Some(RedirectPolicy::FollowAll));
    assert_eq!(get_request("http://example.com/", false).unwrap().redirect, Some(RedirectPolicy::NoFollow));
}

#[test]
fn unparsable_uri_gives_no_request() {
    assert!(get_request("not a uri", true).is_none());
    assert!(post_json_request("http://exa mple.com").is_none());
}

#[test]
fn post_json_request_is_json_post() {
    let req = post_json_request("http://example.com/api").unwrap();
    assert_eq!(req.method, "POST");
    assert_eq!(req.uri, "http://example.com/api");
    assert_eq!(req.headers, vec![("Content-Type".to_string(), "application/json".to_string())]);
    assert_eq!(req.redirect, None);
}

#[test]
fn request_parts_follow_redirects_and_headers() {
    let req = RequestParts::new("PUT", "/x").header("A", "1").follow_redirects(RedirectPolicy::FollowLimit(2)).header("B", "2");
    assert_eq!(req.method, "PUT");
    assert_eq!(req.headers.len(), 2);
    assert_eq!(req.headers[1], ("B".to_string(), "2".to_string()));
    assert_eq!(req.redirect, Some(RedirectPolicy::FollowLimit(2)));
}

#[test]
fn builder_with_error_keeps_it() {
    let builder = http::request::Builder::new().uri("not a uri").follow_redirects(RedirectPolicy::FollowAll);
    assert!(builder.extensions_ref().is_none());
    assert!(builder.body(()).is_err());
}
