use netsync::redirect::{
    https_redirect_fallback_response, join_path_and_query, redirect_request_to_https,
    reply_for_path_and_query, reply_for_uri, status_reply, Reply, INTERNAL_SERVER_ERROR,
    MOVED_PERMANENTLY, NOT_FOUND,
};

fn redirect(host: Option<&str>, path: &str, query: &str) -> Reply {
    redirect_request_to_https(host.map(|h| h.to_string()), path.to_string(), query.to_string())
}

#[test]
fn redirects_to_the_https_address() {
    let reply = redirect(Some("example.com"), "/a/b", "x=1");
    assert_eq!(reply.status, 301);
    assert_eq!(reply.status, MOVED_PERMANENTLY);
    assert_eq!(reply.location, Some("https://example.com/a/b?x=1".to_string()));
    assert_eq!(reply.body, "");
}

#[test]
fn request_without_host_is_not_found() {
    let reply = redirect(None, "/a/b", "x=1");
    assert_eq!(reply.status, 404);
    assert_eq!(reply.status, NOT_FOUND);
    assert_eq!(reply.location, None);
    assert_eq!(reply.body, "");
}

#[test]
fn redirect_without_query_has_no_question_mark() {
    let reply = redirect(Some("example.com"), "/a/b", "");
    assert_eq!(reply.status, MOVED_PERMANENTLY);
    assert_eq!(reply.location, Some("https://example.com/a/b".to_string()));
}

#[test]
fn redirect_keeps_the_port_of_the_authority() {
    let reply = redirect(Some("example.com:8080"), "/", "a=1&b=2");
    assert_eq!(reply.location, Some("https://example.com:8080/?a=1&b=2".to_string()));
}

#[test]
fn redirect_drops_the_fragment() {
    let reply = redirect(Some("example.com"), "/a#top", "");
    assert_eq!(reply.status, MOVED_PERMANENTLY);
    assert_eq!(reply.location, Some("https://example.com/a".to_string()));
}

#[test]
fn redirect_of_the_empty_path_goes_to_the_root() {
    let reply = redirect(Some("example.com"), "", "");
    assert_eq!(reply.status, MOVED_PERMANENTLY);
    assert_eq!(reply.location, Some("https://example.com/".to_string()));
}

#[test]
fn path_that_does_not_parse_is_an_internal_error() {
    let reply = redirect(Some("example.com"), "/a b", "x=1");
    assert_eq!(reply, Reply { status: 500, location: None, body: String::new() });
}

#[test]
fn query_that_does_not_parse_is_an_internal_error() {
    let reply = redirect(Some("example.com"), "/a", "x=\u{7f}");
    assert_eq!(reply.status, INTERNAL_SERVER_ERROR);
    assert_eq!(reply.location, None);
    assert_eq!(reply.body, "");
}

#[test]
fn only_a_missing_host_is_not_found() {
    assert_eq!(redirect(None, "/a b", "x=\u{7f}").status, NOT_FOUND);
    assert_eq!(redirect(None, "", "").status, NOT_FOUND);
    assert_eq!(redirect(None, "/a", "x=1"), redirect(None, "/other", "y=2"));
    assert_eq!(redirect(Some("example.com"), "/a b", "").status, INTERNAL_SERVER_ERROR);
    assert_eq!(redirect(Some("exa mple.com"), "/a", "").status, INTERNAL_SERVER_ERROR);
    assert_eq!(redirect(Some("example.com"), "/a", "").status, MOVED_PERMANENTLY);
}

#[test]
fn authority_that_does_not_parse_is_an_internal_error() {
    let reply = redirect(Some("exa mple.com"), "/a/b", "x=1");
    assert_eq!(reply.status, 500);
    assert_eq!(reply.status, INTERNAL_SERVER_ERROR);
    assert_eq!(reply.location, None);
    assert_eq!(reply.body, "");
}

#[test]
fn empty_authority_is_an_internal_error() {
    let reply = redirect(Some(""), "/a/b", "");
    assert_eq!(reply.status, INTERNAL_SERVER_ERROR);
    assert_eq!(reply.location, None);
}

#[test]
fn join_path_and_query_formula() {
    assert_eq!(join_path_and_query("/a/b", "x=1"), "/a/b?x=1");
    assert_eq!(join_path_and_query("/a/b", ""), "/a/b");
    assert_eq!(join_path_and_query("", "x"), "?x");
    assert_eq!(join_path_and_query("", ""), "");
}

#[test]
fn status_reply_carries_only_the_status() {
    assert_eq!(status_reply(418), Reply { status: 418, location: None, body: String::new() });
}

#[test]
fn reply_for_uri_redirects_or_fails() {
    let built = reply_for_uri(Some("https://example.com/x".to_string()));
    assert_eq!(
        built,
        Reply {
            status: 301,
            location: Some("https://example.com/x".to_string()),
            body: String::new()
        }
    );
    let failed = reply_for_uri(None);
    assert_eq!(failed, Reply { status: 500, location: None, body: String::new() });
}

#[test]
fn reply_for_path_and_query_that_was_rejected_is_an_internal_error() {
    let reply = reply_for_path_and_query("example.com", None);
    assert_eq!(reply, Reply { status: 500, location: None, body: String::new() });
}

#[test]
fn reply_for_path_and_query_builds_the_address() {
    let reply = reply_for_path_and_query("example.com", Some("/a/b?x=1".to_string()));
    assert_eq!(reply.status, MOVED_PERMANENTLY);
    assert_eq!(reply.location, Some("https://example.com/a/b?x=1".to_string()));
}

#[test]
fn fallback_response_names_the_failure() {
    let reply = https_redirect_fallback_response("Rejection(NotFound)");
    assert_eq!(reply.status, 500);
    assert_eq!(reply.location, None);
    assert_eq!(
        reply.body,
        "Please use HTTPS instead of HTTP, automatic redirection failed: Rejection(NotFound)"
    );
}
