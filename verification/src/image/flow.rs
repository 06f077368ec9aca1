//! The steps of an image generation request, as a state machine: from
//! where a request stands and what has just come back, to where it stands
//! next and what is to be done. Whoever runs the request performs the
//! action, waits for what it brings, and hands that back as the next event.
//! Each step also says which lines it leaves in the log.
//!
//! Every upstream call that was made counts as one use of the credential,
//! whatever came of it.

use vstd::prelude::*;
use vstd::string::*;
use crate::credential::health::{after_failure, after_success, FailureClass, FailureDetails};
use crate::credential::pool::{used, CredentialPool, PoolView};
use crate::credential::types::{copy_text_opt, text_opt, CredentialDataView, CredentialView};
use crate::image::json::request_model;
use crate::image::log::{
    answer_line, answer_line_of, call_failed_line, call_failed_line_of, delivered_line,
    delivered_line_of, exhausted_line, exhausted_line_of, line_views, received_line,
    received_line_of, unreadable_line, unreadable_line_of, wrong_kind_line, wrong_kind_line_of,
    LogLine, LogLineView,
};
use crate::image::text::{joined, prompt_is_blank, trimmed};

verus! {

/// What the client is told when a request fails.
#[derive(Debug, PartialEq, Eq)]
pub struct ErrorReply {
    /// The HTTP status.
    pub status: u16,
    pub message: String,
    /// The family of the error.
    pub kind: String,
    /// A code that tells errors of one family apart, where there is one.
    pub code: Option<String>,
}

/// The view of an [`ErrorReply`].
pub struct ErrorReplyView {
    pub status: u16,
    pub message: Seq<char>,
    pub kind: Seq<char>,
    pub code: Option<Seq<char>>,
}

impl View for ErrorReply {
    type V = ErrorReplyView;

    open spec fn view(&self) -> ErrorReplyView {
        ErrorReplyView {
            status: self.status,
            message: self.message@,
            kind: self.kind@,
            code: text_opt(self.code),
        }
    }
}

/// The provider whose credentials serve image generation.
pub open spec fn image_provider() -> Seq<char> {
    "antigravity"@
}

/// How often a token refresh is tried before the request gives up.
pub const REFRESH_ATTEMPTS: u32 = 3;

/// The reply to a request whose prompt is blank.
pub open spec fn blank_prompt_reply() -> ErrorReplyView {
    ErrorReplyView {
        status: 400,
        message: "prompt is required and cannot be empty"@,
        kind: "invalid_request_error"@,
        code: Some("invalid_prompt"@),
    }
}

/// The reply when the store behind the pool cannot be reached.
pub open spec fn store_missing_reply() -> ErrorReplyView {
    ErrorReplyView {
        status: 500,
        message: "Database not available"@,
        kind: "server_error"@,
        code: None,
    }
}

/// The reply when no credential may be used: the service is unavailable
/// for now, and the client may try again.
pub open spec fn exhausted_reply() -> ErrorReplyView {
    ErrorReplyView {
        status: 503,
        message: "No Antigravity credentials available for image generation"@,
        kind: "server_error"@,
        code: Some("no_credentials"@),
    }
}

/// The reply when the credential that was selected holds no OAuth token.
pub open spec fn wrong_kind_reply() -> ErrorReplyView {
    ErrorReplyView {
        status: 500,
        message: "Selected credential is not Antigravity type"@,
        kind: "server_error"@,
        code: None,
    }
}

/// The reply when the token file could not be loaded.
pub open spec fn load_failed_reply(error: Seq<char>) -> ErrorReplyView {
    ErrorReplyView {
        status: 500,
        message: "Failed to load Antigravity credentials: "@ + error,
        kind: "server_error"@,
        code: None,
    }
}

/// The reply when the token could not be refreshed: the client has to
/// authorise anew, or the fault is on this side.
pub open spec fn refresh_failed_reply(requires_reauth: bool, message: Seq<char>) -> ErrorReplyView {
    ErrorReplyView {
        status: if requires_reauth {
            401
        } else {
            500
        },
        message,
        kind: "authentication_error"@,
        code: None,
    }
}

/// The reply when the upstream answer could not be read.
pub open spec fn unreadable_reply(error: Seq<char>) -> ErrorReplyView {
    ErrorReplyView {
        status: 500,
        message: error,
        kind: "server_error"@,
        code: Some("image_generation_failed"@),
    }
}

/// The reply when an event comes that the request, where it stands, is
/// not waiting for.
pub open spec fn out_of_turn_reply() -> ErrorReplyView {
    ErrorReplyView {
        status: 500,
        message: "Image generation could not be continued"@,
        kind: "server_error"@,
        code: None,
    }
}

/// The reply when the upstream call failed.
pub open spec fn call_failed_reply(error: Seq<char>) -> ErrorReplyView {
    ErrorReplyView {
        status: 500,
        message: "Image generation failed: "@ + error,
        kind: "server_error"@,
        code: Some("api_error"@),
    }
}

/// A reply with the given parts.
fn reply(status: u16, message: String, kind: &str, code: Option<&str>) -> (r: ErrorReply)
    ensures
        r@ == (ErrorReplyView {
            status,
            message: message@,
            kind: kind@,
            code: match code {
                Some(c) => Some(c@),
                None => None,
            },
        }),
{
    ErrorReply {
        status,
        message,
        kind: kind.to_owned(),
        code: match code {
            Some(c) => Some(c.to_owned()),
            None => None,
        },
    }
}

/// The credential that serves a request.
#[derive(Debug, PartialEq, Eq)]
pub struct ImageFlow {
    pub credential_id: u64,
    pub token_file: String,
    pub project_id: Option<String>,
}

/// The view of an [`ImageFlow`].
pub struct ImageFlowView {
    pub credential_id: u64,
    pub token_file: Seq<char>,
    pub project_id: Option<Seq<char>>,
}

impl View for ImageFlow {
    type V = ImageFlowView;

    open spec fn view(&self) -> ImageFlowView {
        ImageFlowView {
            credential_id: self.credential_id,
            token_file: self.token_file@,
            project_id: text_opt(self.project_id),
        }
    }
}

/// Where a request stands.
#[derive(Debug, PartialEq, Eq)]
pub enum ImageState {
    /// Nothing has been decided yet.
    Start,
    /// A credential was selected; its token file is being loaded.
    Loading(ImageFlow),
    /// The token is being refreshed.
    Refreshing(ImageFlow),
    /// The project of the token is being found out.
    Discovering(ImageFlow),
    /// The upstream call is under way.
    Calling(ImageFlow),
    /// The request has been answered.
    Done,
}

/// The view of an [`ImageState`].
pub enum ImageStateView {
    Start,
    Loading(ImageFlowView),
    Refreshing(ImageFlowView),
    Discovering(ImageFlowView),
    Calling(ImageFlowView),
    Done,
}

impl View for ImageState {
    type V = ImageStateView;

    open spec fn view(&self) -> ImageStateView {
        match *self {
            ImageState::Start => ImageStateView::Start,
            ImageState::Loading(flow) => ImageStateView::Loading(flow@),
            ImageState::Refreshing(flow) => ImageStateView::Refreshing(flow@),
            ImageState::Discovering(flow) => ImageStateView::Discovering(flow@),
            ImageState::Calling(flow) => ImageStateView::Calling(flow@),
            ImageState::Done => ImageStateView::Done,
        }
    }
}

/// What has just come back.
#[derive(Debug, PartialEq)]
pub enum ImageEvent {
    /// The request has arrived, from a client that showed the right key.
    Arrived { prompt: String, model: String, n: u32, response_format: String, store_ready: bool },
    /// The token file was loaded; the token may have to be refreshed.
    TokenLoaded { needs_refresh: bool },
    /// The token file could not be loaded.
    TokenMissing { error: String },
    /// The token was refreshed.
    TokenRefreshed,
    /// The token could not be refreshed.
    RefreshFailed(FailureDetails),
    /// The search for the project has ended, with or without one.
    ProjectFound { project_id: Option<String> },
    /// The upstream answered the request that was sent as `request` with
    /// `answer`, which holds so many images.
    ImagesReceived { request: serde_json::Value, answer: serde_json::Value, images: usize },
    /// The upstream answered with something that could not be read.
    AnswerUnreadable { answer: serde_json::Value, error: String },
    /// The upstream call failed.
    CallFailed { error: String },
}

/// What is to be done next.
#[derive(Debug, PartialEq, Eq)]
pub enum ImageAction {
    /// Load the token kept in this file.
    LoadToken { token_file: String },
    /// Refresh the token, in at most so many attempts.
    RefreshToken { attempts: u32 },
    /// Find out the project that the token belongs to.
    DiscoverProject,
    /// Make the upstream call under this project; the empty text stands
    /// for none.
    CallUpstream { project_id: String },
    /// Deliver the images to the client.
    Deliver,
    /// Answer the client with this failure.
    Fail(ErrorReply),
}

/// The view of an [`ImageAction`].
pub enum ImageActionView {
    LoadToken { token_file: Seq<char> },
    RefreshToken { attempts: u32 },
    DiscoverProject,
    CallUpstream { project_id: Seq<char> },
    Deliver,
    Fail(ErrorReplyView),
}

impl View for ImageAction {
    type V = ImageActionView;

    open spec fn view(&self) -> ImageActionView {
        match *self {
            ImageAction::LoadToken { token_file } => ImageActionView::LoadToken {
                token_file: token_file@,
            },
            ImageAction::RefreshToken { attempts } => ImageActionView::RefreshToken { attempts },
            ImageAction::DiscoverProject => ImageActionView::DiscoverProject,
            ImageAction::CallUpstream { project_id } => ImageActionView::CallUpstream {
                project_id: project_id@,
            },
            ImageAction::Deliver => ImageActionView::Deliver,
            ImageAction::Fail(reply) => ImageActionView::Fail(reply@),
        }
    }
}

/// What a step comes to: where the request stands, what is to be done,
/// and the lines for the log, in the order in which they are written.
pub struct StepView {
    pub state: ImageStateView,
    pub action: ImageActionView,
    pub log: Seq<LogLineView>,
}

/// The view of what a step returns.
pub open spec fn step_view(step: (ImageState, ImageAction, Vec<LogLine>)) -> StepView {
    StepView { state: step.0@, action: step.1@, log: line_views(step.2@) }
}

/// A step that ends the request with `reply`.
pub open spec fn failing(reply: ErrorReplyView, log: Seq<LogLineView>) -> StepView {
    StepView { state: ImageStateView::Done, action: ImageActionView::Fail(reply), log }
}

/// The reason under which a failure to load the token file is reported.
pub open spec fn load_failure_reason(error: Seq<char>) -> Seq<char> {
    "Failed to load credentials: "@ + error
}

/// Whether a request gets as far as a selection: its prompt says
/// something, and the store is there.
pub open spec fn reaches_selection(blank: bool, store_ready: bool) -> bool {
    !blank && store_ready
}

/// How a request starts: what is checked, in this order, what each
/// failure tells the client, and what is written down. `blank` says
/// whether the prompt is blank, and `received` is the line that says the
/// request has arrived; a request with a blank prompt leaves no line.
pub open spec fn start_of(
    pool: PoolView,
    blank: bool,
    received: LogLineView,
    store_ready: bool,
    now: u64,
    draw: u64,
) -> StepView {
    if blank {
        failing(blank_prompt_reply(), Seq::<LogLineView>::empty())
    } else if !store_ready {
        failing(store_missing_reply(), seq![received])
    } else {
        match pool.selected(image_provider(), None, now, draw) {
            None => failing(exhausted_reply(), seq![received, exhausted_line_of()]),
            Some(c) => match c.data {
                CredentialDataView::OAuth { token_file, project_id } => StepView {
                    state: ImageStateView::Loading(
                        ImageFlowView { credential_id: c.id, token_file, project_id },
                    ),
                    action: ImageActionView::LoadToken { token_file },
                    log: seq![received],
                },
                _ => failing(wrong_kind_reply(), seq![received, wrong_kind_line_of()]),
            },
        }
    }
}

/// The pool after the start of a request: a selection was made, or
/// nothing has changed.
pub open spec fn pool_after_start(
    pool: PoolView,
    blank: bool,
    store_ready: bool,
    now: u64,
    draw: u64,
) -> PoolView {
    if reaches_selection(blank, store_ready) {
        pool.after_select(image_provider(), None, now, draw)
    } else {
        pool
    }
}

/// What comes once the token is ready: the upstream call under the
/// project of the credential, or first the search for the project where
/// the credential names none.
pub open spec fn call_or_discover(flow: ImageFlowView) -> StepView {
    match flow.project_id {
        Some(project_id) => StepView {
            state: ImageStateView::Calling(flow),
            action: ImageActionView::CallUpstream { project_id },
            log: Seq::<LogLineView>::empty(),
        },
        None => StepView {
            state: ImageStateView::Discovering(flow),
            action: ImageActionView::DiscoverProject,
            log: Seq::<LogLineView>::empty(),
        },
    }
}

/// The answer to an event that the request is not waiting for: the
/// request ends.
pub open spec fn out_of_turn() -> StepView {
    failing(out_of_turn_reply(), Seq::<LogLineView>::empty())
}

/// Where the request stands after `event`, what is to be done, and what
/// is written down.
pub open spec fn next_of(
    pool: PoolView,
    state: ImageStateView,
    event: ImageEvent,
    now: u64,
    draw: u64,
) -> StepView {
    match state {
        ImageStateView::Start => match event {
            ImageEvent::Arrived { prompt, model, n, response_format, store_ready } => start_of(
                pool,
                trimmed(prompt@).len() == 0,
                received_line_of(prompt@, model@, n, response_format@),
                store_ready,
                now,
                draw,
            ),
            _ => out_of_turn(),
        },
        ImageStateView::Loading(flow) => match event {
            ImageEvent::TokenLoaded { needs_refresh } => if needs_refresh {
                StepView {
                    state: ImageStateView::Refreshing(flow),
                    action: ImageActionView::RefreshToken { attempts: REFRESH_ATTEMPTS },
                    log: Seq::<LogLineView>::empty(),
                }
            } else {
                call_or_discover(flow)
            },
            ImageEvent::TokenMissing { error } => failing(
                load_failed_reply(error@),
                Seq::<LogLineView>::empty(),
            ),
            _ => out_of_turn(),
        },
        ImageStateView::Refreshing(flow) => match event {
            ImageEvent::TokenRefreshed => call_or_discover(flow),
            ImageEvent::RefreshFailed(details) => failing(
                refresh_failed_reply(details.requires_reauth, details.user_message@),
                Seq::<LogLineView>::empty(),
            ),
            _ => out_of_turn(),
        },
        ImageStateView::Discovering(flow) => match event {
            ImageEvent::ProjectFound { project_id } => StepView {
                state: ImageStateView::Calling(flow),
                action: ImageActionView::CallUpstream {
                    project_id: match project_id {
                        Some(p) => p@,
                        None => Seq::<char>::empty(),
                    },
                },
                log: Seq::<LogLineView>::empty(),
            },
            _ => out_of_turn(),
        },
        ImageStateView::Calling(flow) => match event {
            ImageEvent::ImagesReceived { request, answer, images } => StepView {
                state: ImageStateView::Done,
                action: ImageActionView::Deliver,
                log: seq![answer_line_of(answer), delivered_line_of(images)],
            },
            ImageEvent::AnswerUnreadable { answer, error } => failing(
                unreadable_reply(error@),
                seq![answer_line_of(answer), unreadable_line_of(error@)],
            ),
            ImageEvent::CallFailed { error } => failing(
                call_failed_reply(error@),
                seq![call_failed_line_of(error@)],
            ),
            _ => out_of_turn(),
        },
        ImageStateView::Done => out_of_turn(),
    }
}

/// Whether the step reports the end of an upstream call that was made
/// with the credential `id`: with images, with an answer that could not
/// be read, or with a failure.
pub open spec fn ends_call_with(state: ImageStateView, event: ImageEvent, id: u64) -> bool {
    &&& state matches ImageStateView::Calling(flow)
    &&& flow.credential_id == id
    &&& (event is ImagesReceived || event is AnswerUnreadable || event is CallFailed)
}

/// What `event` does to the pool: a selection at the start; a failure
/// that may pass for a token file that could not be loaded; the caller's
/// verdict for a refresh that failed; and at the end of an upstream call
/// its outcome, if it has one for the credential, and then one use: a
/// success for images, a failure that may pass for a call that failed,
/// nothing for an answer that could not be read. Everything else leaves
/// the pool as it is.
pub open spec fn pool_after(
    pool: PoolView,
    state: ImageStateView,
    event: ImageEvent,
    now: u64,
    draw: u64,
) -> PoolView {
    match state {
        ImageStateView::Start => match event {
            ImageEvent::Arrived { prompt, model, n, response_format, store_ready } => {
                pool_after_start(pool, trimmed(prompt@).len() == 0, store_ready, now, draw)
            },
            _ => pool,
        },
        ImageStateView::Loading(flow) => match event {
            ImageEvent::TokenMissing { error } => pool.change(
                flow.credential_id,
                |c: CredentialView|
                    after_failure(
                        pool.config,
                        c,
                        FailureClass::Transient,
                        load_failure_reason(error@),
                        now,
                    ),
            ),
            _ => pool,
        },
        ImageStateView::Refreshing(flow) => match event {
            ImageEvent::RefreshFailed(details) => pool.change(
                flow.credential_id,
                |c: CredentialView|
                    after_failure(pool.config, c, details.class(), details.user_message@, now),
            ),
            _ => pool,
        },
        ImageStateView::Calling(flow) => match event {
            ImageEvent::ImagesReceived { request, answer, images } => pool.change(
                flow.credential_id,
                |c: CredentialView| after_success(c),
            ).change(flow.credential_id, |c: CredentialView| used(c)),
            ImageEvent::AnswerUnreadable { answer, error } => pool.change(
                flow.credential_id,
                |c: CredentialView| used(c),
            ),
            ImageEvent::CallFailed { error } => pool.change(
                flow.credential_id,
                |c: CredentialView|
                    after_failure(pool.config, c, FailureClass::Transient, error@, now),
            ).change(flow.credential_id, |c: CredentialView| used(c)),
            _ => pool,
        },
        _ => pool,
    }
}

/// A list of one line.
fn one(first: LogLine) -> (r: Vec<LogLine>)
    ensures
        line_views(r@) == seq![first@],
{
    let mut lines: Vec<LogLine> = Vec::new();
    lines.push(first);
    assert(line_views(lines@) =~= seq![first@]);
    lines
}

/// A list of two lines.
fn two(first: LogLine, second: LogLine) -> (r: Vec<LogLine>)
    ensures
        line_views(r@) == seq![first@, second@],
{
    let mut lines: Vec<LogLine> = Vec::new();
    lines.push(first);
    lines.push(second);
    assert(line_views(lines@) =~= seq![first@, second@]);
    lines
}

/// A list of no line.
fn none() -> (r: Vec<LogLine>)
    ensures
        line_views(r@) == Seq::<LogLineView>::empty(),
{
    let lines: Vec<LogLine> = Vec::new();
    assert(line_views(lines@) =~= Seq::<LogLineView>::empty());
    lines
}

/// Ends the request with a failure.
fn fail(status: u16, message: String, kind: &str, code: Option<&str>, log: Vec<LogLine>) -> (r: (
    ImageState,
    ImageAction,
    Vec<LogLine>,
))
    ensures
        step_view(r) == failing(
            ErrorReplyView {
                status,
                message: message@,
                kind: kind@,
                code: match code {
                    Some(c) => Some(c@),
                    None => None,
                },
            },
            line_views(log@),
        ),
{
    (ImageState::Done, ImageAction::Fail(reply(status, message, kind, code)), log)
}

/// Ends the request because the event is none that it waits for.
fn refuse() -> (r: (ImageState, ImageAction, Vec<LogLine>))
    ensures
        step_view(r) == out_of_turn(),
{
    fail(
        500,
        "Image generation could not be continued".to_owned(),
        "server_error",
        None,
        none(),
    )
}

/// Starts a request whose prompt was found blank or not: checks the
/// store, then selects a credential. `received` is the line that says the
/// request has arrived. The pool changes only where a selection is made.
pub fn start(
    pool: &mut CredentialPool,
    blank: bool,
    received: LogLine,
    store_ready: bool,
    now: u64,
    draw: u64,
) -> (r: (ImageState, ImageAction, Vec<LogLine>))
    requires
        old(pool).wf(),
    ensures
        final(pool).wf(),
        step_view(r) == start_of(old(pool)@, blank, received@, store_ready, now, draw),
        final(pool)@ == pool_after_start(old(pool)@, blank, store_ready, now, draw),
{
    if blank {
        return fail(
            400,
            "prompt is required and cannot be empty".to_owned(),
            "invalid_request_error",
            Some("invalid_prompt"),
            none(),
        );
    }
    if !store_ready {
        return fail(
            500,
            "Database not available".to_owned(),
            "server_error",
            None,
            one(received),
        );
    }
    match pool.select_credential("antigravity", None, now, draw) {
        Ok(credential) => match credential.oauth() {
            Ok((token_file, project_id)) => (
                ImageState::Loading(
                    ImageFlow {
                        credential_id: credential.id,
                        token_file: token_file.clone(),
                        project_id: copy_text_opt(project_id),
                    },
                ),
                ImageAction::LoadToken { token_file: token_file.clone() },
                one(received),
            ),
            Err(_) => fail(
                500,
                "Selected credential is not Antigravity type".to_owned(),
                "server_error",
                None,
                two(received, wrong_kind_line()),
            ),
        },
        Err(_) => fail(
            503,
            "No Antigravity credentials available for image generation".to_owned(),
            "server_error",
            Some("no_credentials"),
            two(received, exhausted_line()),
        ),
    }
}

/// Goes on to the upstream call, by way of the search for the project
/// where the credential names none.
fn proceed(flow: ImageFlow) -> (r: (ImageState, ImageAction, Vec<LogLine>))
    ensures
        step_view(r) == call_or_discover(flow@),
{
    let project: Option<String> = copy_text_opt(&flow.project_id);
    match project {
        Some(project_id) => (
            ImageState::Calling(flow),
            ImageAction::CallUpstream { project_id },
            none(),
        ),
        None => (ImageState::Discovering(flow), ImageAction::DiscoverProject, none()),
    }
}

/// Takes a request one step further: from where it stands and what has
/// just come back, to where it stands next, what is to be done, and what
/// is to be written into the log. What the event means for the credential
/// is reported to the pool on the way. An event that the request is not
/// waiting for ends it, and leaves the pool as it is.
pub fn advance(
    pool: &mut CredentialPool,
    state: ImageState,
    event: &ImageEvent,
    now: u64,
    draw: u64,
) -> (r: (ImageState, ImageAction, Vec<LogLine>))
    requires
        old(pool).wf(),
    ensures
        final(pool).wf(),
        step_view(r) == next_of(old(pool)@, state@, *event, now, draw),
        final(pool)@ == pool_after(old(pool)@, state@, *event, now, draw),
{
    match state {
        ImageState::Start => match event {
            ImageEvent::Arrived { prompt, model, n, response_format, store_ready } => {
                let blank: bool = prompt_is_blank(prompt.as_str());
                let received: LogLine = received_line(
                    prompt.as_str(),
                    model.as_str(),
                    *n,
                    response_format.as_str(),
                );
                start(pool, blank, received, *store_ready, now, draw)
            },
            _ => refuse(),
        },
        ImageState::Loading(flow) => match event {
            ImageEvent::TokenLoaded { needs_refresh } => {
                if *needs_refresh {
                    (
                        ImageState::Refreshing(flow),
                        ImageAction::RefreshToken { attempts: REFRESH_ATTEMPTS },
                        none(),
                    )
                } else {
                    proceed(flow)
                }
            },
            ImageEvent::TokenMissing { error } => {
                let reason: String = joined("Failed to load credentials: ", error.as_str());
                let _ = pool.mark_unhealthy(flow.credential_id, reason.as_str(), now);
                fail(
                    500,
                    joined("Failed to load Antigravity credentials: ", error.as_str()),
                    "server_error",
                    None,
                    none(),
                )
            },
            _ => refuse(),
        },
        ImageState::Refreshing(flow) => match event {
            ImageEvent::TokenRefreshed => proceed(flow),
            ImageEvent::RefreshFailed(details) => {
                let _ = pool.mark_unhealthy_with_details(flow.credential_id, details, now);
                let status: u16 = if details.requires_reauth() {
                    401
                } else {
                    500
                };
                fail(
                    status,
                    details.user_message().clone(),
                    "authentication_error",
                    None,
                    none(),
                )
            },
            _ => refuse(),
        },
        ImageState::Discovering(flow) => match event {
            ImageEvent::ProjectFound { project_id } => {
                let project: String = match project_id {
                    Some(p) => p.clone(),
                    None => String::new(),
                };
                (
                    ImageState::Calling(flow),
                    ImageAction::CallUpstream { project_id: project },
                    none(),
                )
            },
            _ => refuse(),
        },
        ImageState::Calling(flow) => match event {
            ImageEvent::ImagesReceived { request, answer, images } => {
                let model: String = request_model(request);
                let _ = pool.mark_healthy(flow.credential_id, Some(model.as_str()));
                let _ = pool.record_usage(flow.credential_id);
                (
                    ImageState::Done,
                    ImageAction::Deliver,
                    two(answer_line(answer), delivered_line(*images)),
                )
            },
            ImageEvent::AnswerUnreadable { answer, error } => {
                let _ = pool.record_usage(flow.credential_id);
                fail(
                    500,
                    error.clone(),
                    "server_error",
                    Some("image_generation_failed"),
                    two(answer_line(answer), unreadable_line(error.as_str())),
                )
            },
            ImageEvent::CallFailed { error } => {
                let _ = pool.mark_unhealthy(flow.credential_id, error.as_str(), now);
                let _ = pool.record_usage(flow.credential_id);
                fail(
                    500,
                    joined("Image generation failed: ", error.as_str()),
                    "server_error",
                    Some("api_error"),
                    one(call_failed_line(error.as_str())),
                )
            },
            _ => refuse(),
        },
        ImageState::Done => refuse(),
    }
}

} // verus!
