//! What a login comes to: what the node tells, what it is told, and what it keeps.

use crate::config::LoginConfig;
use crate::dependencies;
use crate::enrollment::flow::{self, LoginAction, LoginEvent, LoginStage, LoginTerms};
use crate::enrollment::{self, EnrollmentPollResponse, EnrollmentStartRequest, LoginOptions, LoginStep};
use crate::config::PersistedView;
use crate::failure::Failure;
use crate::system_info::SystemInfo;
use crate::text::{chars, trim};
use crate::wireguard::WireGuardIdentity;
use vstd::prelude::*;

verus! {

/// The name that a node asks for is the one that was given; without one, or with a blank one, it
/// is that of the host, without the blanks around it; and there is none where that is blank too.
pub proof fn node_asks_for_its_name(given: Option<Seq<char>>, hostname: Seq<char>)
    ensures
        given matches Some(name) ==> (trim::trim(name).len() > 0 ==> enrollment::name_for(
            given,
            hostname,
        ) == Some(name)),
        (given matches Some(name) ==> trim::trim(name).len() == 0) && trim::trim(hostname).len()
            > 0 ==> enrollment::name_for(given, hostname) == Some(trim::trim(hostname)),
        (given matches Some(name) ==> trim::trim(name).len() == 0) && trim::trim(hostname).len()
            == 0 ==> enrollment::name_for(given, hostname) is None,
{
}

/// A node that asks to be let in tells what it is, and its public key; never its private one.
pub proof fn node_tells_what_it_is(
    options: LoginOptions,
    info: SystemInfo,
    mac_addresses: Vec<String>,
    identity: WireGuardIdentity,
    request: EnrollmentStartRequest,
)
    requires
        enrollment::asks(options, info, mac_addresses, identity, request),
    ensures
        request.hostname@ == info.hostname@,
        request.os_platform@ == info.os_platform@,
        request.os_arch@ == info.os_arch@,
        chars::opt_text(request.agent_version) == chars::opt_text(info.agent_version),
        request.wireguard_public_key matches Some(key) && key@ == identity.public_key@,
        mac_addresses@.len() > 0 ==> request.mac_addresses == Some(mac_addresses),
        mac_addresses@.len() == 0 ==> request.mac_addresses is None,
        options.requested_name matches Some(name) ==> (trim::trim(name@).len() > 0
            ==> chars::opt_text(request.requested_name) == Some(name@)),
{
}

/// A login goes on where the server answers with success, and then only; else what the server
/// said is told.
pub proof fn start_needs_success(status: u16, payload: Seq<char>, answer: Result<(), String>)
    requires
        enrollment::start_told(status, payload, answer),
    ensures
        answer is Ok <==> 200 <= status <= 299,
        answer matches Err(message) ==> (payload.len() > 0 ==> payload.is_suffix_of(message@)),
{
    if let Err(message) = answer {
        if payload.len() > 0 {
            assert(message@.skip(message@.len() - payload.len()) =~= payload);
        }
    }
}

/// The answer to the question whether the node was let in counts where the server answers with
/// success, and then only. A conflict and an expired login are told apart from other refusals.
pub proof fn poll_needs_success(status: u16, payload: Seq<char>)
    ensures
        enrollment::poll_error(status, payload) is None <==> 200 <= status <= 299,
        status == 410 ==> enrollment::poll_error(status, payload) == Some("enrollment expired"@),
        status == 409 ==> (enrollment::poll_error(status, payload) matches Some(said)
            && "enrollment conflict: "@.is_prefix_of(said)),
        payload.len() > 0 && status != 410 ==> (enrollment::poll_error(status, payload) matches Some(
            said,
        ) ==> payload.is_suffix_of(said)),
{
    if let Some(said) = enrollment::poll_error(status, payload) {
        if status == 409 {
            let head = "enrollment conflict: "@;
            assert(said.take(head.len() as int) =~= head);
        }
        if payload.len() > 0 && status != 410 {
            assert(said.skip(said.len() - payload.len()) =~= payload);
        }
    }
}

/// An approved login keeps all that the server gave: the node's identity, its token, the websocket
/// and the interface; with it the address that it turned to, and the node's own keys.
pub proof fn approval_is_kept(
    response: EnrollmentPollResponse,
    interval_ms: u64,
    login: LoginConfig,
    identity: WireGuardIdentity,
)
    ensures
        response matches EnrollmentPollResponse::Approved {
            node_id,
            node_token,
            agent_ws_url,
            wireguard,
        } ==> {
            &&& enrollment::next_step(response, interval_ms, login, identity) matches LoginStep::Save(
                saved,
            )
            &&& saved.node_id == node_id
            &&& saved.node_token == node_token
            &&& saved.agent_ws_url == agent_ws_url
            &&& saved.api_base_url == Some(login.api_base_url)
            &&& wireguard is None ==> saved.wireguard is None
            &&& wireguard matches Some(given) ==> {
                &&& saved.wireguard matches Some(kept)
                &&& kept.interface_name == given.interface_name
                &&& kept.addresses == given.addresses
                &&& kept.dns == given.dns
                &&& kept.server == given.server
                &&& kept.private_key == identity.private_key
                &&& kept.public_key == identity.public_key
            }
        },
{
}

/// A login that is not approved yet asks again: after the time that the server wants, but not
/// before a second has passed.
pub proof fn pending_login_asks_again(
    interval_ms: u64,
    login: LoginConfig,
    identity: WireGuardIdentity,
)
    ensures
        enrollment::next_step(EnrollmentPollResponse::Pending, interval_ms, login, identity) matches
            LoginStep::Wait(ms) && ms >= interval_ms && ms >= 1_000 && (ms == interval_ms || ms
            == 1_000),
{
}

/// A login goes its way: it asks on while it is not approved, saves what it was given when it is,
/// tells the server when that is saved, and has ended well when the server has answered.
pub proof fn login_goes_on(
    stage: LoginStage,
    event: LoginEvent,
    terms: LoginTerms,
    action: LoginAction,
)
    requires
        flow::acts(stage, event, terms, action),
    ensures
        stage is Polling ==> (event matches LoginEvent::Polled { status, response, .. } ==> (200
            <= status <= 299 ==> {
            &&& response matches Ok(EnrollmentPollResponse::Pending) ==> action is Wait
                && flow::stage_after(stage, event, terms) is Polling
            &&& response matches Ok(EnrollmentPollResponse::Approved { node_id, .. }) ==> {
                &&& action matches LoginAction::Save(saved) && saved.node_id == node_id
                &&& flow::stage_after(stage, event, terms) is Saving
            }
            &&& response is Err ==> action is Fail && flow::stage_after(stage, event, terms)
                is Ended
        })),
        stage is Polling ==> (event matches LoginEvent::Polled { status, .. } ==> (!(200 <= status
            <= 299) ==> action is Fail && flow::stage_after(stage, event, terms) is Ended)),
        stage is Saving && event is Saved ==> action is Finish && flow::stage_after(
            stage,
            event,
            terms,
        ) is Finishing,
        stage is Saving && event is NotSaved ==> action is Fail && flow::stage_after(
            stage,
            event,
            terms,
        ) is Ended,
        stage is Finishing && event is Finished ==> action is Done && flow::stage_after(
            stage,
            event,
            terms,
        ) is Ended,
        stage is Finishing && event is NotSent ==> action is Fail,
        stage is Ended ==> action is Ignore,
        action is Save ==> stage is Polling,
        action is Finish ==> stage is Saving && event is Saved,
        action is Done ==> stage is Finishing && event is Finished,
{
}

/// A failed request fails the login, and its causes are kept.
pub proof fn failure_of_a_login_is_told(
    stage: LoginStage,
    cause: Failure,
    terms: LoginTerms,
    action: LoginAction,
)
    requires
        stage is Polling || stage is Finishing,
        flow::acts(stage, LoginEvent::NotSent(cause), terms, action),
    ensures
        action matches LoginAction::Fail(failure) && failure.texts().skip(1) == cause.texts(),
{
    assert((seq!["failed to poll enrollment"@] + cause.texts()).skip(1) =~= cause.texts());
    assert((seq!["failed to finalize enrollment"@] + cause.texts()).skip(1) =~= cause.texts());
}

/// What is told of a login that ended names the node, its websocket and the file that keeps them.
pub proof fn enrolled_node_is_told(saved: PersistedView, path: Seq<char>)
    ensures
        enrollment::told(saved, path).contains("Node ID: "@ + saved.node_id),
        enrollment::told(saved, path).contains("Agent websocket: "@ + saved.agent_ws_url),
        enrollment::told(saved, path).last() == "Saved config: "@ + path,
        saved.wireguard is None ==> enrollment::told(saved, path).len() == 4,
        saved.wireguard is Some ==> enrollment::told(saved, path).len() == 5,
{
    let lines = enrollment::told(saved, path);
    assert(lines[1] == "Node ID: "@ + saved.node_id);
    assert(lines[2] == "Agent websocket: "@ + saved.agent_ws_url);
}

/// A program is missing where it was not found, and then only; the missing ones stand in the
/// order of the list.
pub proof fn missing_programs_are_told(programs: Seq<Seq<char>>, found: Seq<bool>)
    requires
        programs.len() == found.len(),
    ensures
        forall|i: int|
            0 <= i < programs.len() && !found[i] ==> dependencies::missing(programs, found).contains(
                #[trigger] programs[i],
            ),
        forall|p: Seq<char>|
            dependencies::missing(programs, found).contains(p) ==> exists|i: int|
                0 <= i < programs.len() && #[trigger] programs[i] == p && !found[i],
        dependencies::missing(programs, found).len() == 0 <==> forall|i: int|
            0 <= i < found.len() ==> #[trigger] found[i],
    decreases programs.len(),
{
    let all = dependencies::missing(programs, found);
    if programs.len() > 0 {
        let p = programs.drop_last();
        let f = found.drop_last();
        missing_programs_are_told(p, f);
        let before = dependencies::missing(p, f);
        let n = programs.len() - 1;
        assert forall|i: int| 0 <= i < programs.len() && !found[i] implies all.contains(
            #[trigger] programs[i],
        ) by {
            if i < n {
                assert(p[i] == programs[i] && f[i] == found[i]);
                let k = choose|k: int| 0 <= k < before.len() && before[k] == p[i];
                assert(all[k] == before[k]);
            } else {
                assert(all[all.len() - 1] == programs[i]);
            }
        }
        assert forall|q: Seq<char>| all.contains(q) implies exists|i: int|
            0 <= i < programs.len() && #[trigger] programs[i] == q && !found[i] by {
            let k = choose|k: int| 0 <= k < all.len() && all[k] == q;
            if k < before.len() {
                assert(before[k] == q);
                assert(before.contains(q));
                let i = choose|i: int| 0 <= i < p.len() && #[trigger] p[i] == q && !f[i];
                assert(programs[i] == q && !found[i]);
            } else {
                assert(programs[n] == q && !found[n]);
            }
        }
        if all.len() == 0 {
            assert forall|i: int| 0 <= i < found.len() implies #[trigger] found[i] by {
                if i < n {
                    assert(f[i]);
                }
            }
        }
        if forall|i: int| 0 <= i < found.len() ==> #[trigger] found[i] {
            assert(found[n]);
            assert forall|i: int| 0 <= i < f.len() implies #[trigger] f[i] by {
                assert(found[i]);
            }
        }
    }
}

/// A login cannot do without `wg`, `ip` and `tar`.
pub proof fn login_needs_its_programs()
    ensures
        enrollment::required().contains("wg"@),
        enrollment::required().contains("ip"@),
        enrollment::required().contains("tar"@),
{
    assert(enrollment::required()[0] == "wg"@);
    assert(enrollment::required()[1] == "ip"@);
    assert(enrollment::required()[2] == "tar"@);
}

/// A login that fails has ended, as has one that is done; and what does not concern it leaves it
/// where it is.
pub proof fn failed_login_has_ended(
    stage: LoginStage,
    event: LoginEvent,
    terms: LoginTerms,
    action: LoginAction,
)
    requires
        flow::acts(stage, event, terms, action),
    ensures
        action is Fail || action is Done ==> flow::stage_after(stage, event, terms) is Ended,
        action is Ignore || action is Wait ==> flow::stage_after(stage, event, terms) == stage,
        stage is Polling && (event is NotSent || event is NotRead) ==> action is Fail,
        stage is Saving ==> (flow::stage_after(stage, event, terms) matches LoginStage::Finishing(
            saved,
            path,
        ) ==> saved == stage->Saving_0 && (event matches LoginEvent::Saved { path: told } && told@
            == path)),
{
}

/// A login that is done warns where the server did not take it well, of what the server said; and
/// of nothing else.
pub proof fn refused_end_is_warned_of(status: u16, said: Seq<char>)
    ensures
        flow::warning_of(status, Some(said)) is None <==> 200 <= status <= 299,
        flow::warning_of(status, None) is None <==> 200 <= status <= 299,
        flow::warning_of(status, Some(said)) matches Some(text) ==> said.is_suffix_of(text),
{
    if let Some(text) = flow::warning_of(status, Some(said)) {
        assert(text.skip(text.len() - said.len()) =~= said);
    }
}

} // verus!
