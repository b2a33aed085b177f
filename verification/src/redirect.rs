//! Replies of the listener that sends every plain HTTP request on to HTTPS.

use vstd::prelude::*;
use vstd::string::*;

verus! {

/// Status of a reply that redirects for good.
pub const MOVED_PERMANENTLY: u16 = 301;

/// Status of a reply to a request whose target cannot be named.
pub const NOT_FOUND: u16 = 404;

/// Status of a reply to a request that the listener failed on.
pub const INTERNAL_SERVER_ERROR: u16 = 500;

/// What the listener sends back for one request.
#[derive(Debug, PartialEq, Eq)]
pub struct Reply {
    pub status: u16,
    pub location: Option<String>,
    pub body: String,
}

/// A reply as plain values.
pub struct ReplyView {
    pub status: u16,
    pub location: Option<Seq<char>>,
    pub body: Seq<char>,
}

impl View for Reply {
    type V = ReplyView;

    open spec fn view(&self) -> ReplyView {
        ReplyView {
            status: self.status,
            location: match self.location {
                Some(target) => Some(target@),
                None => None,
            },
            body: self.body@,
        }
    }
}

/// A reply that carries a status and nothing else.
pub open spec fn bare_reply(status: u16) -> ReplyView {
    ReplyView { status, location: None, body: Seq::empty() }
}

/// A permanent redirect to `target`.
pub open spec fn redirect_to(target: Seq<char>) -> ReplyView {
    ReplyView { status: MOVED_PERMANENTLY, location: Some(target), body: Seq::empty() }
}

/// The path and query of a request as one text: the path alone where there is
/// no query, else the two joined by a question mark.
pub open spec fn joined_path_and_query(path: Seq<char>, query: Seq<char>) -> Seq<char> {
    if query.len() == 0 {
        path
    } else {
        path + seq!['?'] + query
    }
}

/// What `http::uri::PathAndQuery::from_maybe_shared` makes of `text`: the text
/// form of the parsed path and query, or `None` where it rejects `text`.
pub uninterp spec fn parsed_path_and_query(text: Seq<char>) -> Option<Seq<char>>;

/// What `http::Uri::builder` builds from `scheme`, `authority` and
/// `path_and_query`: the text form of the URI, or `None` where a part is
/// rejected.
pub uninterp spec fn built_uri(
    scheme: Seq<char>,
    authority: Seq<char>,
    path_and_query: Seq<char>,
) -> Option<Seq<char>>;

/// The scheme that every request is sent on to.
pub open spec fn redirect_scheme() -> Seq<char> {
    "https"@
}

/// The reply to a request whose HTTPS address was, or could not be, built.
pub open spec fn reply_for_target(target: Option<Seq<char>>) -> ReplyView {
    match target {
        Some(uri) => redirect_to(uri),
        None => bare_reply(INTERNAL_SERVER_ERROR),
    }
}

/// The reply to a request to `authority` once its path and query were parsed:
/// an internal error where they were rejected or no URI can be built of them,
/// else a redirect to the URI built of the scheme `https`, the authority and
/// the parsed path and query.
pub open spec fn reply_for_parsed(authority: Seq<char>, parsed: Option<Seq<char>>) -> ReplyView {
    match parsed {
        Some(path_and_query) => reply_for_target(
            built_uri(redirect_scheme(), authority, path_and_query),
        ),
        None => bare_reply(INTERNAL_SERVER_ERROR),
    }
}

/// The reply of the redirecting listener to a request: not found without an
/// authority, and that alone; with one, an internal error where the address
/// cannot be built, be it that the path and query do not parse or that the
/// URI is rejected, else a redirect to the same authority, path and query
/// under `https`.
pub open spec fn redirect_reply(
    authority: Option<Seq<char>>,
    path: Seq<char>,
    query: Seq<char>,
) -> ReplyView {
    match authority {
        Some(host) => reply_for_parsed(
            host,
            parsed_path_and_query(joined_path_and_query(path, query)),
        ),
        None => bare_reply(NOT_FOUND),
    }
}

/// Not found is the reply to every request without an authority, whatever
/// its path and query, and to no request with one: such a request is
/// redirected, with the address in the reply, or is answered with a bare
/// internal error.
pub proof fn law_not_found_means_no_authority(
    authority: Option<Seq<char>>,
    path: Seq<char>,
    query: Seq<char>,
)
    ensures
        redirect_reply(authority, path, query).status == NOT_FOUND <==> authority is None,
        authority is None ==> redirect_reply(authority, path, query) == bare_reply(NOT_FOUND),
        authority is Some ==> {
            let reply = redirect_reply(authority, path, query);
            ||| reply.status == MOVED_PERMANENTLY && reply.location is Some
            ||| reply == bare_reply(INTERNAL_SERVER_ERROR)
        },
{
}

/// The opening words of the body that is sent when redirecting failed.
pub open spec fn fallback_prefix() -> Seq<char> {
    "Please use HTTPS instead of HTTP, automatic redirection failed: "@
}

/// Calls `http::uri::PathAndQuery::from_maybe_shared` on `text`. The result is
/// taken to depend on `text` alone; nothing else is claimed of it.
#[verifier::external_body]
fn parse_path_and_query(text: String) -> (parsed: Option<String>)
    ensures
        match parsed {
            Some(accepted) => parsed_path_and_query(text@) == Some(accepted@),
            None => parsed_path_and_query(text@).is_none(),
        },
{
    match warp::http::uri::PathAndQuery::from_maybe_shared(text) {
        Ok(path_and_query) => Some(path_and_query.as_str().to_string()),
        Err(_) => None,
    }
}

/// Calls `http::Uri::builder` with the three given parts, and builds. The
/// result is taken to depend on the three parts alone; nothing else is
/// claimed of it.
#[verifier::external_body]
fn build_uri(scheme: &str, authority: &str, path_and_query: &str) -> (uri: Option<String>)
    ensures
        match uri {
            Some(built) => built_uri(scheme@, authority@, path_and_query@) == Some(built@),
            None => built_uri(scheme@, authority@, path_and_query@).is_none(),
        },
{
    let built = warp::hyper::Uri::builder()
        .scheme(scheme)
        .authority(authority)
        .path_and_query(path_and_query)
        .build();
    match built {
        Ok(uri) => Some(uri.to_string()),
        Err(_) => None,
    }
}

/// A reply with the given status, no location and an empty body.
pub fn status_reply(status: u16) -> (reply: Reply)
    ensures
        reply@ == bare_reply(status),
{
    Reply { status, location: None, body: String::new() }
}

/// Joins the path and the query of a request.
pub fn join_path_and_query(path: &str, query: &str) -> (text: String)
    ensures
        text@ == joined_path_and_query(path@, query@),
{
    let mut text = String::from_str(path);
    if !query.is_empty() {
        proof {
            reveal_strlit("?");
        }
        text.append("?");
        text.append(query);
        assert("?"@ =~= seq!['?']);
    }
    text
}

/// The reply once the HTTPS address of the request was built, or was not.
pub fn reply_for_uri(uri: Option<String>) -> (reply: Reply)
    ensures
        reply@ == reply_for_target(
            match uri {
                Some(target) => Some(target@),
                None => None,
            },
        ),
{
    match uri {
        Some(target) => Reply {
            status: MOVED_PERMANENTLY,
            location: Some(target),
            body: String::new(),
        },
        None => status_reply(INTERNAL_SERVER_ERROR),
    }
}

/// The reply to a request to `authority` once its path and query were parsed,
/// or were rejected: the address is built under `https`, and what cannot be
/// built is an internal error.
pub fn reply_for_path_and_query(authority: &str, parsed: Option<String>) -> (reply: Reply)
    ensures
        reply@ == reply_for_parsed(
            authority@,
            match parsed {
                Some(accepted) => Some(accepted@),
                None => None,
            },
        ),
{
    match parsed {
        Some(path_and_query) => {
            let uri = build_uri("https", authority, path_and_query.as_str());
            reply_for_uri(uri)
        },
        None => status_reply(INTERNAL_SERVER_ERROR),
    }
}

/// Answers one plain HTTP request with a redirect to its HTTPS address.
pub fn redirect_request_to_https(authority: Option<String>, path: String, query: String) -> (reply:
    Reply)
    ensures
        reply@ == redirect_reply(
            match authority {
                Some(host) => Some(host@),
                None => None,
            },
            path@,
            query@,
        ),
{
    match authority {
        Some(host) => {
            let text = join_path_and_query(path.as_str(), query.as_str());
            let parsed = parse_path_and_query(text);
            reply_for_path_and_query(host.as_str(), parsed)
        },
        None => status_reply(NOT_FOUND),
    }
}

/// The reply that is sent when computing the redirect failed: an internal
/// error whose body asks for HTTPS and names the failure.
pub fn https_redirect_fallback_response(rejection: &str) -> (reply: Reply)
    ensures
        reply@ == (ReplyView {
            status: INTERNAL_SERVER_ERROR,
            location: None,
            body: fallback_prefix() + rejection@,
        }),
{
    let mut body = String::from_str(
        "Please use HTTPS instead of HTTP, automatic redirection failed: ",
    );
    body.append(rejection);
    Reply { status: INTERNAL_SERVER_ERROR, location: None, body }
}

} // verus!
