//! The addresses of the server.

use crate::environment::{self, Environment};
use crate::text::{chars, edit, search, split, trim};
use vstd::prelude::*;

verus! {

/// The address of the hosted server.
pub const DEFAULT_API_BASE_URL: &'static str = "https://statix.se/api";

/// A text up to its first character `c`.
pub open spec fn head(s: Seq<char>, c: char) -> Seq<char> {
    match search::find_char(s, c, 0) {
        Some(i) => s.take(i),
        None => s,
    }
}

/// What follows the scheme of an address.
pub open spec fn without_scheme(url: Seq<char>) -> Seq<char> {
    match split::split_once(url, "://"@) {
        Some((_, rest)) => rest,
        None => url,
    }
}

/// The host of an address, in lower case.
pub open spec fn hostname(url: Seq<char>) -> Option<Seq<char>> {
    let authority = trim::trim(head(without_scheme(url), '/'));
    if authority.len() == 0 {
        None
    } else if authority[0] == '[' {
        match search::find_char(authority, ']', 0) {
            Some(end) => Some(edit::lower_text(authority.subrange(1, end))),
            None => None,
        }
    } else {
        let host = trim::trim(head(authority, ':'));
        if host.len() == 0 {
            None
        } else {
            Some(edit::lower_text(host))
        }
    }
}

/// An address names the machine itself, or a wildcard name for addresses.
pub open spec fn loopback_like(url: Seq<char>) -> bool {
    match hostname(url) {
        Some(host) => {
            ||| host == "localhost"@
            ||| host == "127.0.0.1"@
            ||| host == "::1"@
            ||| ".nip.io"@.is_suffix_of(host)
        },
        None => false,
    }
}

/// An address without blanks around it and slashes at its end.
pub open spec fn tidy(url: Seq<char>) -> Seq<char> {
    trim::trim_end_char(trim::trim(url), '/')
}

/// An address of the server in the form that the agent uses: that of a host alone is led to the
/// path `/api`.
pub open spec fn normal(url: Seq<char>) -> Seq<char> {
    if hostname(tidy(url)) is Some && search::find_char(without_scheme(tidy(url)), '/', 0) is None {
        tidy(url) + "/api"@
    } else {
        tidy(url)
    }
}

/// The path, with a slash before it.
pub open spec fn rooted(path: Seq<char>) -> Seq<char> {
    if "/"@.is_prefix_of(path) {
        path
    } else {
        "/"@ + path
    }
}

/// The websocket address of a server.
pub open spec fn websocket(url: Seq<char>) -> Seq<char> {
    match search::after_prefix(url, "https://"@) {
        Some(rest) => "wss://"@ + rest,
        None => match search::after_prefix(url, "http://"@) {
            Some(rest) => "ws://"@ + rest,
            None => if "ws://"@.is_prefix_of(url) || "wss://"@.is_prefix_of(url) {
                url
            } else {
                "ws://"@ + url
            },
        },
    }
}

/// A websocket address with the scheme of a plain one.
pub open spec fn plain_scheme(url: Seq<char>) -> Seq<char> {
    match search::after_prefix(url, "wss://"@) {
        Some(rest) => "https://"@ + rest,
        None => match search::after_prefix(url, "ws://"@) {
            Some(rest) => "http://"@ + rest,
            None => url,
        },
    }
}

/// The address of the server whose websocket address is `url`.
pub open spec fn api_of_websocket(url: Seq<char>) -> Seq<char> {
    let base = plain_scheme(url);
    match search::before_suffix(base, "/api/ws/agent"@) {
        Some(api) => api,
        None => match search::before_suffix(base, "/ws/agent"@) {
            Some(api) => normal(api),
            None => normal(base),
        },
    }
}

/// The address of the server that a login turns to: the one that was named, else that of the
/// environment, else that of the last login unless it names the machine itself, else the hosted
/// one.
pub open spec fn login_address(
    named: Option<Seq<char>>,
    env: Option<Seq<char>>,
    persisted: Option<Seq<char>>,
) -> Seq<char> {
    normal(
        match environment::non_blank(named) {
            Some(url) => url,
            None => match environment::non_blank(env) {
                Some(url) => url,
                None => match environment::non_blank(persisted) {
                    Some(url) => if loopback_like(url) {
                        DEFAULT_API_BASE_URL@
                    } else {
                        url
                    },
                    None => DEFAULT_API_BASE_URL@,
                },
            },
        },
    )
}

/// A text up to its first character `c`.
fn head_of(s: &str, c: char) -> (r: String)
    ensures
        r@ == head(s@, c),
{
    let cs = chars::chars_of(s);
    proof {
        search::lemma_find_char(s@, c, 0);
    }
    match search::index_of_char(&cs, c, 0) {
        Some(i) => {
            let r = chars::text_of(&cs, 0, i);
            proof {
                assert(r@ =~= s@.take(i as int));
            }
            r
        },
        None => s.to_owned(),
    }
}

/// What follows the scheme of an address.
fn after_scheme(url: &str) -> (r: String)
    ensures
        r@ == without_scheme(url@),
{
    match split::cut(url, "://") {
        Some((_, rest)) => rest,
        None => url.to_owned(),
    }
}

/// The host of an address, in lower case.
pub fn extract_hostname(value: &str) -> (r: Option<String>)
    ensures
        chars::opt_text(r) == hostname(value@),
{
    let authority = trim::trimmed(&head_of(&after_scheme(value), '/'));
    let cs = chars::chars_of(&authority);
    if cs.len() == 0 {
        return None;
    }
    if cs[0] == '[' {
        proof {
            search::lemma_find_char(authority@, ']', 0);
        }
        return match search::index_of_char(&cs, ']', 0) {
            Some(end) => {
                assert(end > 0);
                Some(edit::lowered(&chars::text_of(&cs, 1, end)))
            },
            None => None,
        };
    }
    let host = trim::trimmed(&head_of(&authority, ':'));
    if host.as_str().is_empty() {
        return None;
    }
    Some(edit::lowered(&host))
}

/// Whether an address names the machine itself, or a wildcard name for addresses.
pub fn is_loopback_like_url(value: &str) -> (r: bool)
    ensures
        r == loopback_like(value@),
{
    match extract_hostname(value) {
        Some(host) => chars::same(&host, "localhost") || chars::same(&host, "127.0.0.1")
            || chars::same(&host, "::1") || search::ends(&host, ".nip.io"),
        None => false,
    }
}

/// An address without the slashes at its end.
pub fn trim_trailing_slash(value: &str) -> (r: String)
    ensures
        r@ == trim::trim_end_char(value@, '/'),
{
    trim::trimmed_end_char(value, '/')
}

/// Brings an address of the server into the form that the agent uses.
pub fn normalize_api_base_url(value: &str) -> (r: String)
    ensures
        r@ == normal(value@),
{
    let trimmed = trim_trailing_slash(&trim::trimmed(value));
    if extract_hostname(&trimmed).is_none() {
        return trimmed;
    }
    let rest = chars::chars_of(&after_scheme(&trimmed));
    match search::index_of_char(&rest, '/', 0) {
        Some(_) => trimmed,
        None => chars::cat(&trimmed, "/api"),
    }
}

/// Puts a slash before a path that has none.
pub fn normalize_path(value: &str) -> (r: String)
    ensures
        r@ == rooted(value@),
{
    if search::begins(value, "/") {
        value.to_owned()
    } else {
        chars::cat("/", value)
    }
}

/// The websocket address of a server.
pub fn to_ws_base_url(value: &str) -> (r: String)
    ensures
        r@ == websocket(value@),
{
    if let Some(rest) = search::strip_prefix(value, "https://") {
        return chars::cat("wss://", &rest);
    }
    if let Some(rest) = search::strip_prefix(value, "http://") {
        return chars::cat("ws://", &rest);
    }
    if search::begins(value, "ws://") || search::begins(value, "wss://") {
        return value.to_owned();
    }
    chars::cat("ws://", value)
}

/// The address of the server behind a websocket address.
pub fn api_base_url_from_ws_url(value: &str) -> (r: String)
    ensures
        r@ == api_of_websocket(value@),
{
    let base = match search::strip_prefix(value, "wss://") {
        Some(rest) => chars::cat("https://", &rest),
        None => match search::strip_prefix(value, "ws://") {
            Some(rest) => chars::cat("http://", &rest),
            None => value.to_owned(),
        },
    };
    if let Some(api) = search::strip_suffix(&base, "/api/ws/agent") {
        return api;
    }
    if let Some(api) = search::strip_suffix(&base, "/ws/agent") {
        return normalize_api_base_url(&api);
    }
    normalize_api_base_url(&base)
}

/// Chooses the address of the server that a login turns to.
pub fn resolve_login_api_base_url(
    explicit_api_base_url: Option<String>,
    env_api_base_url: Option<String>,
    persisted_api_base_url: Option<String>,
) -> (r: String)
    ensures
        r@ == login_address(
            chars::opt_text(explicit_api_base_url),
            chars::opt_text(env_api_base_url),
            chars::opt_text(persisted_api_base_url),
        ),
{
    if let Some(url) = environment::non_blank_text(chars::opt_ref(&explicit_api_base_url)) {
        return normalize_api_base_url(&url);
    }
    if let Some(url) = environment::non_blank_text(chars::opt_ref(&env_api_base_url)) {
        return normalize_api_base_url(&url);
    }
    match environment::non_blank_text(chars::opt_ref(&persisted_api_base_url)) {
        Some(url) => if is_loopback_like_url(&url) {
            normalize_api_base_url(DEFAULT_API_BASE_URL)
        } else {
            normalize_api_base_url(&url)
        },
        None => normalize_api_base_url(DEFAULT_API_BASE_URL),
    }
}

/// The websocket address of an environment that names the server but not its websocket.
pub open spec fn websocket_of_server(env: &Environment) -> Option<Seq<char>> {
    match environment::set_var(env, "API_BASE_URL"@) {
        Some(url) => Some(
            websocket(trim::trim_end_char(url, '/')) + rooted(
                match environment::var(env, "NODE_WS_PATH"@) {
                    Some(path) => path,
                    None => "/api/ws/agent"@,
                },
            ),
        ),
        None => None,
    }
}

/// The websocket address of an environment that names the server but not its websocket.
pub fn ws_url_of_server(env: &Environment) -> (r: Option<String>)
    ensures
        chars::opt_text(r) == websocket_of_server(env),
{
    match environment::set_var_of(env, "API_BASE_URL") {
        Some(url) => {
            let base = to_ws_base_url(&trim_trailing_slash(&url));
            let path = match environment::var_of(env, "NODE_WS_PATH") {
                Some(path) => normalize_path(path),
                None => normalize_path("/api/ws/agent"),
            };
            Some(chars::cat(&base, &path))
        },
        None => None,
    }
}

} // verus!
