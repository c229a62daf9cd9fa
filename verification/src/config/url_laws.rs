//! What holds of the server's addresses.

use crate::config::url;
use crate::environment::{self, Environment};
use crate::text::{ascii, edit, laws, search, trim};
use vstd::prelude::*;

verus! {

/// The websocket address of a server has a websocket's scheme.
pub proof fn websocket_has_its_scheme(address: Seq<char>)
    ensures
        "ws://"@.is_prefix_of(url::websocket(address)) || "wss://"@.is_prefix_of(
            url::websocket(address),
        ),
{
    let ws = url::websocket(address);
    if let Some(rest) = search::after_prefix(address, "https://"@) {
        assert(ws.subrange(0, "wss://"@.len() as int) =~= "wss://"@);
    } else if let Some(rest) = search::after_prefix(address, "http://"@) {
        assert(ws.subrange(0, "ws://"@.len() as int) =~= "ws://"@);
    } else if !("ws://"@.is_prefix_of(address) || "wss://"@.is_prefix_of(address)) {
        assert(ws.subrange(0, "ws://"@.len() as int) =~= "ws://"@);
    }
}

/// From the websocket address that an agent is given for a server, the server's address is found
/// again.
pub proof fn server_is_found_again(address: Seq<char>)
    requires
        "http://"@.is_prefix_of(address) || "https://"@.is_prefix_of(address),
    ensures
        url::api_of_websocket(url::websocket(address) + "/api/ws/agent"@) == address,
{
    reveal_strlit("http://");
    reveal_strlit("https://");
    reveal_strlit("ws://");
    reveal_strlit("wss://");
    let tail = "/api/ws/agent"@;
    let ws = url::websocket(address) + tail;
    if "https://"@.is_prefix_of(address) {
        let rest = address.skip(8);
        assert(search::after_prefix(address, "https://"@) == Some(rest));
        assert(ws.subrange(0, 6) =~= "wss://"@);
        assert(ws.skip(6) =~= rest + tail);
        assert("https://"@ + rest =~= address);
        assert(url::plain_scheme(ws) =~= address + tail);
    } else {
        let rest = address.skip(7);
        assert(address[4] == "http://"@[4]);
        assert(search::after_prefix(address, "https://"@) is None);
        assert(search::after_prefix(address, "http://"@) == Some(rest));
        assert(ws.subrange(0, 5) =~= "ws://"@);
        assert(ws[2] == ':');
        assert(!"wss://"@.is_prefix_of(ws)) by {
            if "wss://"@.is_prefix_of(ws) {
                assert(ws.subrange(0, 6)[2] == "wss://"@[2]);
            }
        }
        assert(ws.skip(5) =~= rest + tail);
        assert("http://"@ + rest =~= address);
        assert(url::plain_scheme(ws) =~= address + tail);
    }
    let base = url::plain_scheme(ws);
    assert(base.subrange(base.len() - tail.len(), base.len() as int) =~= tail);
    assert(base.take(base.len() - tail.len()) =~= address);
}

proof fn lemma_no_slash_at_the_end(s: Seq<char>)
    ensures
        trim::trim_end_char(s, '/').len() > 0 ==> trim::trim_end_char(s, '/').last() != '/',
    decreases s.len(),
{
    if s.len() > 0 && s.last() == '/' {
        lemma_no_slash_at_the_end(s.drop_last());
    }
}

/// Behind an address that does not end in a slash, `/api` is no part of the scheme.
proof fn lemma_scheme_stays(t: Seq<char>)
    requires
        t.len() > 0,
        t.last() != '/',
    ensures
        url::without_scheme(t + "/api"@) == url::without_scheme(t) + "/api"@,
{
    reveal_strlit("/api");
    reveal_strlit("://");
    let p = "://"@;
    let n = t + "/api"@;
    search::lemma_find_from(t, p, 0);
    search::lemma_find_from(n, p, 0);
    match search::find(t, p) {
        Some(i) => {
            assert(n.subrange(i, i + 3) =~= t.subrange(i, i + 3));
            assert(search::occurs_at(n, p, i));
            let k = search::find(n, p)->Some_0;
            if k < i {
                assert(n.subrange(k, k + 3) =~= t.subrange(k, k + 3));
                assert(search::occurs_at(t, p, k));
            }
            assert(k == i);
            assert(n.skip(i + 3) =~= t.skip(i + 3) + "/api"@);
        },
        None => {
            if let Some(k) = search::find(n, p) {
                assert(search::occurs_at(n, p, k));
                assert(n.subrange(k, k + 3)[1] == '/');
                assert(n.subrange(k, k + 3)[2] == '/');
                assert(n[k + 1] == '/' && n[k + 2] == '/');
                if k + 3 <= t.len() {
                    assert(n.subrange(k, k + 3) =~= t.subrange(k, k + 3));
                    assert(search::occurs_at(t, p, k));
                } else {
                    assert(k + 2 == t.len());
                    assert(n[k + 1] == t.last());
                }
            }
        },
    }
}

/// An address in the form that the agent uses keeps that form. This leaves out the addresses
/// whose form ends in a blank: those that end in blanks and slashes in turn.
pub proof fn normal_form_is_kept(address: Seq<char>)
    requires
        trim::trim(url::normal(address)) == url::normal(address),
    ensures
        url::normal(url::normal(address)) == url::normal(address),
{
    reveal_strlit("/api");
    let t = url::tidy(address);
    let n = url::normal(address);
    lemma_no_slash_at_the_end(trim::trim(address));
    if n == t {
        assert(url::tidy(n) == t);
    } else {
        let rest = url::without_scheme(t);
        let more = rest + "/api"@;
        assert(n == t + "/api"@);
        assert(n.last() == 'i');
        assert(url::tidy(n) == n);
        if t.len() == 0 {
            reveal_strlit("://");
            search::lemma_find_from(t, "://"@, 0);
            search::lemma_find_char(t, '/', 0);
            assert(trim::trim(t) =~= t);
        }
        lemma_scheme_stays(t);
        search::lemma_find_char(rest, '/', 0);
        search::lemma_find_char(more, '/', 0);
        assert(more[rest.len() as int] == '/');
        let k = search::find_char(more, '/', 0)->Some_0;
        if k < rest.len() {
            assert(rest[k] == '/');
        }
        assert(k == rest.len());
        assert(more.take(k) =~= rest);
        assert(url::head(more, '/') == url::head(rest, '/'));
        assert(url::hostname(n) == url::hostname(t));
    }
}

/// A login turns to the address that it is given, whatever else is known.
pub proof fn named_address_comes_first(
    named: Option<Seq<char>>,
    env: Option<Seq<char>>,
    persisted: Option<Seq<char>>,
)
    requires
        environment::non_blank(named) is Some,
    ensures
        url::login_address(named, env, persisted) == url::login_address(named, None, None),
{
}

/// A login that is given no address turns to that of the environment before that of the last
/// login.
pub proof fn environment_comes_second(
    named: Option<Seq<char>>,
    env: Option<Seq<char>>,
    persisted: Option<Seq<char>>,
)
    requires
        environment::non_blank(named) is None,
        environment::non_blank(env) is Some,
    ensures
        url::login_address(named, env, persisted) == url::login_address(env, None, None),
{
}

/// An address of the last login that names the machine itself is never turned to.
pub proof fn loopback_is_not_kept(
    named: Option<Seq<char>>,
    env: Option<Seq<char>>,
    persisted: Option<Seq<char>>,
)
    requires
        environment::non_blank(persisted) matches Some(address) && url::loopback_like(address),
    ensures
        url::login_address(named, env, persisted) == url::login_address(named, env, None),
{
}

/// A websocket address has the scheme of the server's address, with or without encryption, and
/// all that follows it; an address without a scheme is taken to be without encryption.
pub proof fn websocket_keeps_the_rest(rest: Seq<char>)
    ensures
        url::websocket("https://"@ + rest) == "wss://"@ + rest,
        url::websocket("http://"@ + rest) == "ws://"@ + rest,
        url::websocket("wss://"@ + rest) == "wss://"@ + rest,
        url::websocket("ws://"@ + rest) == "ws://"@ + rest,
        rest.len() > 0 && rest[0] != 'h' && rest[0] != 'w' ==> url::websocket(rest) == "ws://"@
            + rest,
{
    reveal_strlit("https://");
    reveal_strlit("http://");
    reveal_strlit("wss://");
    reveal_strlit("ws://");
    let a = "https://"@ + rest;
    assert(a.subrange(0, 8) =~= "https://"@);
    assert(a.skip(8) =~= rest);
    let b = "http://"@ + rest;
    assert(b.subrange(0, 7) =~= "http://"@);
    assert(b.skip(7) =~= rest);
    assert(b[4] == ':');
    if "https://"@.is_prefix_of(b) {
        assert(b.subrange(0, 8)[4] == "https://"@[4]);
    }
    let c = "wss://"@ + rest;
    assert(c.subrange(0, 6) =~= "wss://"@);
    lemma_other_start(c);
    let d = "ws://"@ + rest;
    assert(d.subrange(0, 5) =~= "ws://"@);
    lemma_other_start(d);
    if rest.len() > 0 && rest[0] != 'h' && rest[0] != 'w' {
        lemma_other_start(rest);
        if "ws://"@.is_prefix_of(rest) {
            assert(rest.subrange(0, 5)[0] == "ws://"@[0]);
        }
        if "wss://"@.is_prefix_of(rest) {
            assert(rest.subrange(0, 6)[0] == "wss://"@[0]);
        }
    }
}

proof fn lemma_other_start(s: Seq<char>)
    requires
        s.len() > 0,
        s[0] != 'h',
    ensures
        search::after_prefix(s, "https://"@) is None,
        search::after_prefix(s, "http://"@) is None,
{
    reveal_strlit("https://");
    reveal_strlit("http://");
    if "https://"@.is_prefix_of(s) {
        assert(s.subrange(0, 8)[0] == "https://"@[0]);
    }
    if "http://"@.is_prefix_of(s) {
        assert(s.subrange(0, 7)[0] == "http://"@[0]);
    }
}

/// The name of a host, or a scheme: not empty, and without a blank, a slash, a colon or a bracket.
pub open spec fn plain_name(s: Seq<char>) -> bool {
    &&& s.len() > 0
    &&& forall|i: int|
        0 <= i < s.len() ==> #[trigger] s[i] != '/' && s[i] != ':' && s[i] != '[' && s[i] != ']'
            && !ascii::white(s[i])
}

/// A port with the colon before it, or nothing.
pub open spec fn port_part(s: Seq<char>) -> bool {
    &&& s.len() > 0 ==> s[0] == ':'
    &&& forall|i: int|
        0 <= i < s.len() ==> #[trigger] s[i] != '/' && s[i] != ']' && !ascii::white(s[i])
}

/// A path with the slash before it, or nothing.
pub open spec fn path_part(s: Seq<char>) -> bool {
    s.len() > 0 ==> s[0] == '/'
}

proof fn lemma_behind_scheme(scheme: Seq<char>, rest: Seq<char>)
    requires
        plain_name(scheme),
    ensures
        url::without_scheme(scheme + "://"@ + rest) == rest,
{
    reveal_strlit("://");
    let p = "://"@;
    let s = scheme + p + rest;
    let n = scheme.len() as int;
    assert(s.subrange(n, n + 3) =~= p);
    assert(search::occurs_at(s, p, n));
    search::lemma_find_from(s, p, 0);
    let k = search::find(s, p)->Some_0;
    if k < n {
        assert(s.subrange(k, k + 3)[0] == s[k]);
        assert(s[k] == scheme[k]);
    }
    assert(s.skip(n + 3) =~= rest);
}

proof fn lemma_head(a: Seq<char>, c: char, rest: Seq<char>)
    requires
        forall|i: int| 0 <= i < a.len() ==> #[trigger] a[i] != c,
        rest.len() > 0 ==> rest[0] == c,
    ensures
        url::head(a + rest, c) == a,
        search::find_char(a + rest, c, 0) is None <==> rest.len() == 0,
{
    let s = a + rest;
    search::lemma_find_char(s, c, 0);
    if rest.len() > 0 {
        assert(s[a.len() as int] == c);
        let k = search::find_char(s, c, 0)->Some_0;
        if k < a.len() {
            assert(s[k] == a[k]);
        }
        assert(s.take(k) =~= a);
    } else {
        assert(s =~= a);
    }
}

proof fn lemma_bare(s: Seq<char>)
    requires
        s.len() > 0 ==> !ascii::white(s[0]) && !ascii::white(s.last()),
    ensures
        trim::trim(s) == s,
{
    laws::blanks_are_trimmed(seq![], s, seq![]);
    assert(Seq::<char>::empty() + s + Seq::<char>::empty() =~= s);
}

/// The host of an address is what stands between its scheme and its port or path, in lower case.
pub proof fn host_is_found(scheme: Seq<char>, host: Seq<char>, port: Seq<char>, path: Seq<char>)
    requires
        plain_name(scheme),
        plain_name(host),
        port_part(port),
        path_part(path),
    ensures
        url::hostname(scheme + "://"@ + (host + port + path)) == Some(edit::lower_text(host)),
{
    lemma_behind_scheme(scheme, host + port + path);
    let authority = host + port;
    assert forall|i: int| 0 <= i < authority.len() implies #[trigger] authority[i] != '/' by {
        if i < host.len() {
            assert(authority[i] == host[i]);
        } else {
            assert(authority[i] == port[i - host.len()]);
        }
    }
    lemma_head(authority, '/', path);
    assert(authority[0] == host[0]);
    if port.len() > 0 {
        assert(authority.last() == port[port.len() - 1]);
    } else {
        assert(authority.last() == host[host.len() - 1]);
    }
    lemma_bare(authority);
    lemma_head(host, ':', port);
    assert(host.last() == host[host.len() - 1]);
    lemma_bare(host);
}

/// The host of an address that is written in brackets is what stands in them, in lower case.
pub proof fn bracketed_host_is_found(
    scheme: Seq<char>,
    host: Seq<char>,
    port: Seq<char>,
    path: Seq<char>,
)
    requires
        plain_name(scheme),
        forall|i: int| 0 <= i < host.len() ==> #[trigger] host[i] != '/' && host[i] != ']',
        port_part(port),
        path_part(path),
    ensures
        url::hostname(scheme + "://"@ + (seq!['['] + host + seq![']'] + port + path)) == Some(
            edit::lower_text(host),
        ),
{
    let authority = seq!['['] + host + seq![']'] + port;
    lemma_behind_scheme(scheme, authority + path);
    assert forall|i: int| 0 <= i < authority.len() implies #[trigger] authority[i] != '/' by {
        if 1 <= i <= host.len() {
            assert(authority[i] == host[i - 1]);
        } else if i > host.len() + 1 {
            assert(authority[i] == port[i - host.len() - 2]);
        }
    }
    lemma_head(authority, '/', path);
    assert(authority[0] == '[');
    if port.len() > 0 {
        assert(authority.last() == port[port.len() - 1]);
    } else {
        assert(authority.last() == ']');
    }
    lemma_bare(authority);
    let open = seq!['['] + host;
    assert(authority =~= open + (seq![']'] + port));
    lemma_head(open, ']', seq![']'] + port);
    search::lemma_find_char(authority, ']', 0);
    let end = search::find_char(authority, ']', 0)->Some_0;
    assert(authority.take(end) =~= open);
    assert(authority.take(end).len() == open.len());
    assert(authority.subrange(1, end) =~= host);
}

/// An address names the machine itself, or a wildcard name for addresses, exactly where its host
/// is one of those names, in either case.
pub proof fn loopback_is_told_by_its_name(
    scheme: Seq<char>,
    host: Seq<char>,
    port: Seq<char>,
    path: Seq<char>,
)
    requires
        plain_name(scheme),
        plain_name(host),
        port_part(port),
        path_part(path),
    ensures
        url::loopback_like(scheme + "://"@ + (host + port + path)) <==> {
            ||| edit::lower_text(host) == "localhost"@
            ||| edit::lower_text(host) == "127.0.0.1"@
            ||| ".nip.io"@.is_suffix_of(edit::lower_text(host))
        },
        url::loopback_like(
            scheme + "://"@ + (seq!['['] + seq![':', ':', '1'] + seq![']'] + port + path),
        ),
{
    host_is_found(scheme, host, port, path);
    reveal_strlit("::1");
    let h = edit::lower_text(host);
    assert(h[0] == ascii::lower(host[0]));
    assert(host[0] != ':');
    if h == "::1"@ {
        assert(h[0] == ':');
    }
    let own = seq![':', ':', '1'];
    bracketed_host_is_found(scheme, own, port, path);
    assert(edit::lower_text(own) =~= "::1"@);
}

/// The address of a host alone is led to the path of the interface, also where slashes end it.
/// One that has a path keeps it.
pub proof fn host_is_led_to_the_interface(
    scheme: Seq<char>,
    host: Seq<char>,
    port: Seq<char>,
    path: Seq<char>,
)
    requires
        plain_name(scheme),
        plain_name(host),
        port_part(port),
        path_part(path),
        path.len() > 0 ==> path.last() != '/' && !ascii::white(path.last()),
    ensures
        path.len() == 0 ==> url::normal(scheme + "://"@ + (host + port + path)) == scheme + "://"@
            + (host + port) + "/api"@,
        path.len() > 0 ==> url::normal(scheme + "://"@ + (host + port + path)) == scheme + "://"@
            + (host + port + path),
        url::normal((scheme + "://"@ + (host + port + path)).push('/')) == url::normal(
            scheme + "://"@ + (host + port + path),
        ),
{
    reveal_strlit("://");
    let rest = host + port + path;
    let s = scheme + "://"@ + rest;
    let authority = host + port;
    assert(s[0] == scheme[0]);
    if path.len() > 0 {
        assert(s.last() == path.last());
    } else if port.len() > 0 {
        assert(s.last() == port[port.len() - 1]);
    } else {
        assert(s.last() == host[host.len() - 1]);
    }
    lemma_bare(s);
    let more = s.push('/');
    assert(more[0] == s[0]);
    assert(more.last() == '/');
    lemma_bare(more);
    assert(more.drop_last() =~= s);
    assert(trim::trim_end_char(s, '/') == s);
    assert(url::tidy(s) == s);
    assert(trim::trim_end_char(more, '/') == trim::trim_end_char(s, '/'));
    assert(url::tidy(more) == s);
    host_is_found(scheme, host, port, path);
    lemma_behind_scheme(scheme, rest);
    assert forall|i: int| 0 <= i < authority.len() implies #[trigger] authority[i] != '/' by {
        if i < host.len() {
            assert(authority[i] == host[i]);
        } else {
            assert(authority[i] == port[i - host.len()]);
        }
    }
    lemma_head(authority, '/', path);
    if path.len() == 0 {
        assert(rest =~= authority);
    }
}

/// A login turns to the address that it is given; to that of the environment where it is given
/// none; then to that of the last login; and with none of them to the hosted server.
pub proof fn login_turns_to_its_server(
    named: Option<Seq<char>>,
    env: Option<Seq<char>>,
    persisted: Option<Seq<char>>,
)
    ensures
        environment::non_blank(named) matches Some(address) ==> url::login_address(
            named,
            env,
            persisted,
        ) == url::normal(address),
        environment::non_blank(named) is None ==> (environment::non_blank(env) matches Some(address)
            ==> url::login_address(named, env, persisted) == url::normal(address)),
        environment::non_blank(named) is None && environment::non_blank(env) is None ==> (
        environment::non_blank(persisted) matches Some(address) ==> (!url::loopback_like(address)
            ==> url::login_address(named, env, persisted) == url::normal(address))),
        environment::non_blank(named) is None && environment::non_blank(env) is None
            && environment::non_blank(persisted) is None ==> url::login_address(
            named,
            env,
            persisted,
        ) == "https://statix.se/api"@,
{
    reveal_strlit("https");
    reveal_strlit("://");
    reveal_strlit("statix.se");
    reveal_strlit("/api");
    reveal_strlit("https://statix.se/api");
    let none = Seq::<char>::empty();
    assert("https"@ + "://"@ + ("statix.se"@ + none + "/api"@) =~= "https://statix.se/api"@);
    host_is_led_to_the_interface("https"@, "statix.se"@, none, "/api"@);
}

/// An agent that is told of a server by its environment reaches it at the agents' path, or at the
/// path that the environment names, with one slash before it; slashes at the end of the address
/// do not matter.
pub proof fn server_is_reached_at_its_path(env: &Environment, address: Seq<char>)
    requires
        address.len() > 0,
        address.last() != '/',
        environment::set_var(env, "API_BASE_URL"@) == Some(address) || environment::set_var(
            env,
            "API_BASE_URL"@,
        ) == Some(address.push('/')),
    ensures
        environment::var(env, "NODE_WS_PATH"@) is None ==> url::websocket_of_server(env) == Some(
            url::websocket(address) + "/api/ws/agent"@,
        ),
        environment::var(env, "NODE_WS_PATH"@) matches Some(path) ==> {
            &&& path.len() > 0 && path[0] == '/' ==> url::websocket_of_server(env) == Some(
                url::websocket(address) + path,
            )
            &&& path.len() == 0 || path[0] != '/' ==> url::websocket_of_server(env) == Some(
                url::websocket(address) + ("/"@ + path),
            )
        },
{
    reveal_strlit("/");
    reveal_strlit("/api/ws/agent");
    assert(address.push('/').drop_last() =~= address);
    assert(trim::trim_end_char(address, '/') == address);
    assert(trim::trim_end_char(address.push('/'), '/') == address);
    assert("/api/ws/agent"@.subrange(0, 1) =~= "/"@);
    if let Some(path) = environment::var(env, "NODE_WS_PATH"@) {
        if path.len() > 0 {
            assert(path.subrange(0, 1)[0] == path[0]);
            if path[0] == '/' {
                assert(path.subrange(0, 1) =~= "/"@);
            } else if "/"@.is_prefix_of(path) {
                assert(path.subrange(0, 1)[0] == "/"@[0]);
            }
        }
    }
}

/// Without the address of a server the environment tells of no websocket.
pub proof fn no_server_is_not_reached(env: &Environment)
    requires
        environment::set_var(env, "API_BASE_URL"@) is None,
    ensures
        url::websocket_of_server(env) is None,
{
}

/// From a websocket address without the interface's path, the server's address is found as well,
/// and brought into the form that the agent uses.
pub proof fn server_without_its_path_is_found(address: Seq<char>)
    requires
        "http://"@.is_prefix_of(address) || "https://"@.is_prefix_of(address),
        !"/api"@.is_suffix_of(address),
    ensures
        url::api_of_websocket(url::websocket(address) + "/ws/agent"@) == url::normal(address),
{
    reveal_strlit("http://");
    reveal_strlit("https://");
    reveal_strlit("ws://");
    reveal_strlit("wss://");
    reveal_strlit("/api");
    reveal_strlit("/ws/agent");
    reveal_strlit("/api/ws/agent");
    let tail = "/ws/agent"@;
    let ws = url::websocket(address) + tail;
    if "https://"@.is_prefix_of(address) {
        let rest = address.skip(8);
        assert(ws.subrange(0, 6) =~= "wss://"@);
        assert(ws.skip(6) =~= rest + tail);
        assert("https://"@ + rest =~= address);
        assert(url::plain_scheme(ws) =~= address + tail);
    } else {
        let rest = address.skip(7);
        assert(address[4] == "http://"@[4]);
        assert(search::after_prefix(address, "https://"@) is None);
        assert(ws.subrange(0, 5) =~= "ws://"@);
        assert(ws[2] == ':');
        assert(!"wss://"@.is_prefix_of(ws)) by {
            if "wss://"@.is_prefix_of(ws) {
                assert(ws.subrange(0, 6)[2] == "wss://"@[2]);
            }
        }
        assert(ws.skip(5) =~= rest + tail);
        assert("http://"@ + rest =~= address);
        assert(url::plain_scheme(ws) =~= address + tail);
    }
    let base = url::plain_scheme(ws);
    assert(base =~= address + tail);
    assert(base.subrange(base.len() - 9, base.len() as int) =~= tail);
    assert(base.take(base.len() - 9) =~= address);
    if "/api/ws/agent"@.is_suffix_of(base) {
        let whole = base.subrange(base.len() - 13, base.len() as int);
        assert(whole == "/api/ws/agent"@);
        let end = address.subrange(address.len() - 4, address.len() as int);
        assert forall|i: int| 0 <= i < 4 implies end[i] == "/api"@[i] by {
            assert(end[i] == whole[i]);
        }
        assert(end =~= "/api"@);
    }
}

} // verus!
