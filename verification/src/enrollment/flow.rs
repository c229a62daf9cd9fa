//! The course of a login, from the first question whether the node was let in to its end.

use crate::config::{self, LoginConfig, PersistedAgentConfig, PersistedView};
use crate::enrollment::{self, EnrollmentPollResponse, LoginStep};
use crate::environment::{self, Environment};
use crate::failure::Failure;
use crate::text::chars;
use crate::wireguard::WireGuardIdentity;
use vstd::prelude::*;

verus! {

/// What a login goes by: the server that it turned to, the node's keys, and the time that the
/// server wants between two questions.
#[derive(Debug)]
pub struct LoginTerms {
    pub login: LoginConfig,
    pub identity: WireGuardIdentity,
    pub poll_interval_ms: u64,
}

/// What happens in a login.
pub enum LoginEvent {
    /// A request was not answered.
    NotSent(Failure),
    /// The answer to the question whether the node was let in could not be read.
    NotRead(Failure),
    /// The server answered that question. The answer, as far as it can be understood, is
    /// `response`.
    Polled { status: u16, payload: String, response: Result<EnrollmentPollResponse, Failure> },
    /// The node's identity could not be saved.
    NotSaved(Failure),
    /// The node's identity was saved.
    Saved { path: String },
    /// The server answered that the login is finished, and said this, where it can be read.
    Finished { status: u16, text: Option<String> },
}

/// What a login does on an event.
pub enum LoginAction {
    /// It asks again after so many milliseconds.
    Wait(u64),
    /// It saves the node's identity.
    Save(PersistedAgentConfig),
    /// It tells the server that it is finished.
    Finish,
    /// It has ended well, and tells these lines. There may be something to warn of.
    Done { lines: Vec<String>, warning: Option<String> },
    /// It has failed.
    Fail(Failure),
    /// Nothing, as it does not wait for such an event.
    Ignore,
}

/// Where a login stands.
enum Stage {
    Polling,
    Saving(PersistedAgentConfig),
    Finishing { saved: PersistedAgentConfig, path: String },
    Ended,
}

/// Where a login stands: it asks whether the node was let in; it saves an identity; it tells the
/// server that it is finished, with the identity saved at a path; or it has ended.
pub enum LoginStage {
    Polling,
    Saving(PersistedView),
    Finishing(PersistedView, Seq<char>),
    Ended,
}

/// A login under way.
pub struct LoginRun {
    terms: LoginTerms,
    stage: Stage,
}

impl View for LoginRun {
    type V = LoginStage;

    closed spec fn view(&self) -> LoginStage {
        match self.stage {
            Stage::Polling => LoginStage::Polling,
            Stage::Saving(saved) => LoginStage::Saving(saved@),
            Stage::Finishing { saved, path } => LoginStage::Finishing(saved@, path@),
            Stage::Ended => LoginStage::Ended,
        }
    }
}

/// What follows from an answer that the server did not refuse and that was understood.
pub open spec fn answered(response: EnrollmentPollResponse, terms: LoginTerms) -> LoginStep {
    enrollment::next_step(response, terms.poll_interval_ms, terms.login, terms.identity)
}

/// Where a login stands after an event.
pub open spec fn stage_after(
    stage: LoginStage,
    event: LoginEvent,
    terms: LoginTerms,
) -> LoginStage {
    match stage {
        LoginStage::Polling => match event {
            LoginEvent::NotSent(_) => LoginStage::Ended,
            LoginEvent::NotRead(_) => LoginStage::Ended,
            LoginEvent::Polled { status, payload, response } => if enrollment::poll_error(
                status,
                payload@,
            ) is Some {
                LoginStage::Ended
            } else {
                match response {
                    Err(_) => LoginStage::Ended,
                    Ok(response) => match answered(response, terms) {
                        LoginStep::Wait(_) => LoginStage::Polling,
                        LoginStep::Save(saved) => LoginStage::Saving(saved@),
                    },
                }
            },
            _ => stage,
        },
        LoginStage::Saving(saved) => match event {
            LoginEvent::NotSaved(_) => LoginStage::Ended,
            LoginEvent::Saved { path } => LoginStage::Finishing(saved, path@),
            _ => stage,
        },
        LoginStage::Finishing(saved, path) => match event {
            LoginEvent::NotSent(_) => LoginStage::Ended,
            LoginEvent::Finished { .. } => LoginStage::Ended,
            _ => stage,
        },
        LoginStage::Ended => LoginStage::Ended,
    }
}

/// What to warn of when a login has ended well; nothing where the server took it well too.
pub open spec fn warning_of(status: u16, text: Option<Seq<char>>) -> Option<Seq<char>> {
    if enrollment::success(status) {
        None
    } else {
        Some(
            "enrollment finished locally but finalize failed: "@ + (match text {
                Some(text) => text,
                None => "unable to read finalize response"@,
            }),
        )
    }
}

/// The action is a failure that says this.
pub open spec fn fails(action: LoginAction, causes: Seq<Seq<char>>) -> bool {
    action matches LoginAction::Fail(failure) && failure.texts() == causes
}

/// A login does this on an event.
pub open spec fn acts(
    stage: LoginStage,
    event: LoginEvent,
    terms: LoginTerms,
    action: LoginAction,
) -> bool {
    match stage {
        LoginStage::Polling => match event {
            LoginEvent::NotSent(cause) => fails(
                action,
                seq!["failed to poll enrollment"@] + cause.texts(),
            ),
            LoginEvent::NotRead(cause) => fails(
                action,
                seq!["failed to read poll response"@] + cause.texts(),
            ),
            LoginEvent::Polled { status, payload, response } => match enrollment::poll_error(
                status,
                payload@,
            ) {
                Some(said) => fails(action, seq![said]),
                None => match response {
                    Err(cause) => fails(
                        action,
                        seq!["invalid enrollment poll payload"@] + cause.texts(),
                    ),
                    Ok(response) => match answered(response, terms) {
                        LoginStep::Wait(ms) => action == LoginAction::Wait(ms),
                        LoginStep::Save(saved) => action == LoginAction::Save(saved),
                    },
                },
            },
            _ => action is Ignore,
        },
        LoginStage::Saving(saved) => match event {
            LoginEvent::NotSaved(cause) => action == LoginAction::Fail(cause),
            LoginEvent::Saved { path } => action is Finish,
            _ => action is Ignore,
        },
        LoginStage::Finishing(saved, path) => match event {
            LoginEvent::NotSent(cause) => fails(
                action,
                seq!["failed to finalize enrollment"@] + cause.texts(),
            ),
            LoginEvent::Finished { status, text } => {
                &&& action matches LoginAction::Done { lines, warning }
                &&& chars::texts(lines@) == enrollment::told(saved, path)
                &&& chars::opt_text(warning) == warning_of(status, chars::opt_text(text))
            },
            _ => action is Ignore,
        },
        LoginStage::Ended => action is Ignore,
    }
}

/// What to warn of when a login has ended well.
fn warning_text(status: u16, text: Option<String>) -> (r: Option<String>)
    ensures
        chars::opt_text(r) == warning_of(status, chars::opt_text(text)),
{
    if status >= 200 && status < 300 {
        return None;
    }
    let said = match text {
        Some(text) => text,
        None => "unable to read finalize response".to_owned(),
    };
    Some(chars::cat("enrollment finished locally but finalize failed: ", &said))
}

impl LoginRun {
    /// What the login goes by.
    pub closed spec fn terms(self) -> LoginTerms {
        self.terms
    }

    /// A login that has begun and asks whether the node was let in.
    pub fn new(terms: LoginTerms) -> (r: Self)
        ensures
            r.terms() == terms,
            r@ == LoginStage::Polling,
    {
        LoginRun { terms, stage: Stage::Polling }
    }

    /// Decides what a login does on an event.
    pub fn advance(&mut self, event: LoginEvent) -> (r: LoginAction)
        ensures
            final(self).terms() == old(self).terms(),
            final(self)@ == stage_after(old(self)@, event, old(self).terms()),
            acts(old(self)@, event, old(self).terms(), r),
    {
        let mut stage = Stage::Ended;
        std::mem::swap(&mut stage, &mut self.stage);
        match stage {
            Stage::Polling => self.polled(event),
            Stage::Saving(saved) => match event {
                LoginEvent::NotSaved(cause) => LoginAction::Fail(cause),
                LoginEvent::Saved { path } => {
                    self.stage = Stage::Finishing { saved, path };
                    LoginAction::Finish
                },
                _ => {
                    self.stage = Stage::Saving(saved);
                    LoginAction::Ignore
                },
            },
            Stage::Finishing { saved, path } => match event {
                LoginEvent::NotSent(cause) => LoginAction::Fail(
                    cause.context("failed to finalize enrollment".to_owned()),
                ),
                LoginEvent::Finished { status, text } => LoginAction::Done {
                    lines: enrollment::enrolled_lines(&saved, &path),
                    warning: warning_text(status, text),
                },
                _ => {
                    self.stage = Stage::Finishing { saved, path };
                    LoginAction::Ignore
                },
            },
            Stage::Ended => LoginAction::Ignore,
        }
    }

    /// Decides what a login that asks whether the node was let in does on an event.
    fn polled(&mut self, event: LoginEvent) -> (r: LoginAction)
        requires
            old(self)@ == LoginStage::Ended,
        ensures
            final(self).terms() == old(self).terms(),
            final(self)@ == stage_after(LoginStage::Polling, event, old(self).terms()),
            acts(LoginStage::Polling, event, old(self).terms(), r),
    {
        match event {
            LoginEvent::NotSent(cause) => LoginAction::Fail(
                cause.context("failed to poll enrollment".to_owned()),
            ),
            LoginEvent::NotRead(cause) => LoginAction::Fail(
                cause.context("failed to read poll response".to_owned()),
            ),
            LoginEvent::Polled { status, payload, response } => {
                if let Err(said) = enrollment::check_poll(status, &payload) {
                    return LoginAction::Fail(Failure::new(said));
                }
                match response {
                    Err(cause) => LoginAction::Fail(
                        cause.context("invalid enrollment poll payload".to_owned()),
                    ),
                    Ok(response) => match enrollment::run_login(
                        response,
                        self.terms.poll_interval_ms,
                        &self.terms.login,
                        &self.terms.identity,
                    ) {
                        LoginStep::Wait(ms) => {
                            self.stage = Stage::Polling;
                            LoginAction::Wait(ms)
                        },
                        LoginStep::Save(saved) => {
                            self.stage = Stage::Saving(config::copy_persisted(&saved));
                            LoginAction::Save(saved)
                        },
                    },
                }
            },
            _ => {
                self.stage = Stage::Polling;
                LoginAction::Ignore
            },
        }
    }
}

/// Where a login stands after events.
pub open spec fn stage_of(events: Seq<LoginEvent>, terms: LoginTerms) -> LoginStage
    decreases events.len(),
{
    if events.len() == 0 {
        LoginStage::Polling
    } else {
        stage_after(stage_of(events.drop_last(), terms), events.last(), terms)
    }
}

/// On the event with number `k` a login saves an identity.
pub open spec fn saves(
    events: Seq<LoginEvent>,
    terms: LoginTerms,
    k: int,
    saved: PersistedView,
) -> bool {
    &&& 0 <= k < events.len()
    &&& stage_of(events.take(k), terms) == LoginStage::Polling
    &&& stage_after(LoginStage::Polling, events[k], terms) == LoginStage::Saving(saved)
}

/// On the event with number `k` a login tells the server that it is finished: it was told that
/// the identity is saved.
pub open spec fn finishes(
    events: Seq<LoginEvent>,
    terms: LoginTerms,
    k: int,
    saved: PersistedView,
) -> bool {
    &&& 0 <= k < events.len()
    &&& stage_of(events.take(k), terms) == LoginStage::Saving(saved)
    &&& events[k] is Saved
}

/// On the event with number `k` a login ends well.
pub open spec fn ends_well(
    events: Seq<LoginEvent>,
    terms: LoginTerms,
    k: int,
    saved: PersistedView,
) -> bool {
    &&& 0 <= k < events.len()
    &&& stage_of(events.take(k), terms) matches LoginStage::Finishing(kept, _) && kept == saved
    &&& events[k] is Finished
}

/// What is being saved, or was saved, was approved before; and what was saved was saved before.
proof fn lemma_stage(events: Seq<LoginEvent>, terms: LoginTerms, n: int)
    requires
        0 <= n <= events.len(),
    ensures
        match stage_of(events.take(n), terms) {
            LoginStage::Saving(saved) => exists|i: int|
                i < n && #[trigger] saves(events, terms, i, saved),
            LoginStage::Finishing(saved, _) => exists|i: int, j: int|
                i < j < n && #[trigger] saves(events, terms, i, saved) && #[trigger] finishes(
                    events,
                    terms,
                    j,
                    saved,
                ),
            _ => true,
        },
    decreases n,
{
    if n > 0 {
        let now = events.take(n);
        let before = events.take(n - 1);
        assert(now.drop_last() =~= before);
        assert(now.last() == events[n - 1]);
        lemma_stage(events, terms, n - 1);
        match stage_of(now, terms) {
            LoginStage::Saving(saved) => {
                if stage_of(before, terms) == LoginStage::Polling {
                    assert(saves(events, terms, n - 1, saved));
                } else {
                    let i = choose|i: int| i < n - 1 && #[trigger] saves(events, terms, i, saved);
                    assert(i < n && saves(events, terms, i, saved));
                }
            },
            LoginStage::Finishing(saved, _) => {
                if stage_of(before, terms) == LoginStage::Saving(saved) {
                    let i = choose|i: int| i < n - 1 && #[trigger] saves(events, terms, i, saved);
                    assert(saves(events, terms, i, saved) && finishes(events, terms, n - 1, saved));
                } else {
                    let (i, j) = choose|i: int, j: int|
                        i < j < n - 1 && #[trigger] saves(events, terms, i, saved)
                            && #[trigger] finishes(events, terms, j, saved);
                    assert(saves(events, terms, i, saved) && finishes(events, terms, j, saved));
                }
            },
            _ => {},
        }
    }
}

/// The server is told that a login is finished only after the identity that it gave was saved.
pub proof fn saving_comes_before_finishing(
    events: Seq<LoginEvent>,
    terms: LoginTerms,
    k: int,
    saved: PersistedView,
)
    requires
        finishes(events, terms, k, saved),
    ensures
        exists|i: int| i < k && #[trigger] saves(events, terms, i, saved),
{
    lemma_stage(events, terms, k);
}

/// A login that ends well has saved the identity that it tells of, and told the server after that.
pub proof fn what_is_told_was_saved(
    events: Seq<LoginEvent>,
    terms: LoginTerms,
    k: int,
    saved: PersistedView,
)
    requires
        ends_well(events, terms, k, saved),
    ensures
        exists|i: int, j: int|
            i < j < k && #[trigger] saves(events, terms, i, saved) && #[trigger] finishes(
                events,
                terms,
                j,
                saved,
            ),
{
    lemma_stage(events, terms, k);
}

/// A login that has ended does nothing more.
proof fn lemma_ended(events: Seq<LoginEvent>, terms: LoginTerms, n: int, m: int)
    requires
        0 <= n <= m <= events.len(),
        stage_of(events.take(n), terms) == LoginStage::Ended,
    ensures
        stage_of(events.take(m), terms) == LoginStage::Ended,
    decreases m - n,
{
    if n < m {
        lemma_ended(events, terms, n, m - 1);
        assert(events.take(m).drop_last() =~= events.take(m - 1));
    }
}

/// A login that the server refuses saves nothing: not on the refusal, not before it, and not
/// after it.
pub proof fn refused_login_saves_nothing(
    events: Seq<LoginEvent>,
    terms: LoginTerms,
    k: int,
    other: int,
    saved: PersistedView,
)
    requires
        0 <= k < events.len(),
        stage_of(events.take(k), terms) == LoginStage::Polling,
        events[k] matches LoginEvent::Polled { status, payload, .. } && enrollment::poll_error(
            status,
            payload@,
        ) is Some,
    ensures
        !saves(events, terms, other, saved),
{
    assert(events.take(k + 1).drop_last() =~= events.take(k));
    assert(events.take(k + 1).last() == events[k]);
    if saves(events, terms, other, saved) {
        if other > k {
            lemma_ended(events, terms, k + 1, other);
        } else if other < k {
            assert(events.take(other + 1).drop_last() =~= events.take(other));
            assert(events.take(other + 1).last() == events[other]);
            lemma_no_way_back(events, terms, other + 1, k);
        }
    }
}

/// A login that was approved does not ask again.
proof fn lemma_no_way_back(events: Seq<LoginEvent>, terms: LoginTerms, n: int, m: int)
    requires
        0 <= n <= m <= events.len(),
        stage_of(events.take(n), terms) != LoginStage::Polling,
    ensures
        stage_of(events.take(m), terms) != LoginStage::Polling,
    decreases m - n,
{
    if n < m {
        lemma_no_way_back(events, terms, n, m - 1);
        assert(events.take(m).drop_last() =~= events.take(m - 1));
    }
}

/// Where the identity was saved and the server answers at all, the login ends well, whatever the
/// answer is: the identity is kept, and only the warning differs.
pub proof fn finish_reply_fails_no_login(
    saved: PersistedView,
    path: Seq<char>,
    status: u16,
    text: Option<String>,
    terms: LoginTerms,
    action: LoginAction,
)
    requires
        acts(
            LoginStage::Finishing(saved, path),
            LoginEvent::Finished { status, text },
            terms,
            action,
        ),
    ensures
        action matches LoginAction::Done { lines, warning } && chars::texts(lines@)
            == enrollment::told(saved, path) && (warning is None <==> enrollment::success(status)),
{
}

/// The identity that a login saves is the one that the server gave, with the address that the
/// login turned to and the node's own keys; and an agent for which no variable is set starts with
/// it, where its file holds it.
pub proof fn next_start_finds_the_login(
    events: Seq<LoginEvent>,
    terms: LoginTerms,
    k: int,
    saved: PersistedView,
    env: &Environment,
)
    requires
        saves(events, terms, k, saved),
        forall|name: Seq<char>| #[trigger] environment::var(env, name) is None,
    ensures
        events[k] matches LoginEvent::Polled {
            response: Ok(
                EnrollmentPollResponse::Approved { node_id, node_token, agent_ws_url, .. },
            ),
            ..
        } && saved.node_id == node_id@ && saved.node_token == node_token@ && saved.agent_ws_url
            == agent_ws_url@,
        saved.api_base_url == Some(terms.login.api_base_url@),
        saved.wireguard matches Some(wireguard) ==> wireguard.private_key
            == terms.identity.private_key@ && wireguard.public_key == terms.identity.public_key@,
        config::missing_field(env, Some(saved)) is None,
        config::loaded(env, Some(saved)).node_id == saved.node_id,
        config::loaded(env, Some(saved)).node_token == saved.node_token,
        config::loaded(env, Some(saved)).agent_ws_url == saved.agent_ws_url,
        config::loaded(env, Some(saved)).wireguard == saved.wireguard,
{
    config::login_is_enough(env, saved);
}

} // verus!
