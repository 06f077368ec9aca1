//! What holds of image generation requests however many of them run and
//! however their steps fall between each other.

use vstd::prelude::*;
use crate::credential::health::{after_failure, after_success, FailureClass};
use crate::credential::laws::{lemma_change_is_found, lemma_select_keeps_places, lemma_selected_is_selectable};
use crate::credential::pool::{handed_out, used, PoolView};
use crate::credential::registry::{has_id, holds_at, lemma_place_is_unique, lookup, place_of};
use crate::credential::types::{bump64, CredentialView};
use crate::image::flow::{
    ends_call_with, image_provider, load_failure_reason, pool_after, reaches_selection,
    ImageEvent, ImageStateView,
};
use crate::image::text::trimmed;

verus! {

/// One step of some request: where it stood, what came back, and the time
/// and the lot that the step was given.
pub struct RunStep {
    pub state: ImageStateView,
    pub event: ImageEvent,
    pub now: u64,
    pub draw: u64,
}

/// The pool after the steps were taken in this order. The steps may
/// belong to any number of requests, and fall between each other in any
/// way.
pub open spec fn after_run(pool: PoolView, steps: Seq<RunStep>) -> PoolView
    decreases steps.len(),
{
    if steps.len() == 0 {
        pool
    } else {
        pool_after(
            after_run(pool, steps.drop_last()),
            steps.last().state,
            steps.last().event,
            steps.last().now,
            steps.last().draw,
        )
    }
}

/// How many of the steps report the end of an upstream call that was made
/// with the credential `id`.
pub open spec fn calls_ended(steps: Seq<RunStep>, id: u64) -> nat
    decreases steps.len(),
{
    if steps.len() == 0 {
        0
    } else {
        calls_ended(steps.drop_last(), id) + if ends_call_with(
            steps.last().state,
            steps.last().event,
            id,
        ) {
            1nat
        } else {
            0nat
        }
    }
}

/// Whether the step reports images for a call that was made with the
/// credential `id`.
pub open spec fn delivers_with(state: ImageStateView, event: ImageEvent, id: u64) -> bool {
    ends_call_with(state, event, id) && event is ImagesReceived
}

/// How many of the steps report images for a call that was made with the
/// credential `id`.
pub open spec fn images_delivered(steps: Seq<RunStep>, id: u64) -> nat
    decreases steps.len(),
{
    if steps.len() == 0 {
        0
    } else {
        images_delivered(steps.drop_last(), id) + if delivers_with(
            steps.last().state,
            steps.last().event,
            id,
        ) {
            1nat
        } else {
            0nat
        }
    }
}

/// A selection leaves every credential in the pool, and changes of the
/// one it hands out nothing but the time of its last use.
pub proof fn lemma_select_keeps_counts(
    pool: PoolView,
    provider: Seq<char>,
    tag: Option<Seq<char>>,
    now: u64,
    draw: u64,
    id: u64,
)
    requires
        pool.wf(),
        has_id(pool.credentials, id),
    ensures
        pool.after_select(provider, tag, now, draw).wf(),
        ({
            let before = lookup(pool.credentials, id).unwrap();
            let after = lookup(pool.after_select(provider, tag, now, draw).credentials, id);
            after == Some(before) || after == Some(handed_out(before, now))
        }),
{
    lemma_select_keeps_places(pool, provider, tag, now, draw, pool.credentials.len());
    lemma_selected_is_selectable(pool, provider, tag, now, draw);
    let at = place_of(pool.credentials, id);
    assert(holds_at(pool.credentials, id, at));
    let after = pool.after_select(provider, tag, now, draw).credentials;
    assert(holds_at(after, id, at));
    lemma_place_is_unique(after, id, at);
    lemma_place_is_unique(pool.credentials, id, at);
}

/// One step counts one use of a credential exactly if it reports the end
/// of an upstream call made with it, and one success exactly if it
/// reports images for such a call. No step takes a credential out of the
/// pool.
pub proof fn lemma_step_counts(
    pool: PoolView,
    state: ImageStateView,
    event: ImageEvent,
    now: u64,
    draw: u64,
    id: u64,
)
    requires
        pool.wf(),
        has_id(pool.credentials, id),
    ensures
        pool_after(pool, state, event, now, draw).wf(),
        pool_after(pool, state, event, now, draw).config == pool.config,
        ({
            let before = lookup(pool.credentials, id).unwrap();
            let after = lookup(pool_after(pool, state, event, now, draw).credentials, id);
            &&& after is Some
            &&& after.unwrap().stats.total_requests == if ends_call_with(state, event, id) {
                bump64(before.stats.total_requests)
            } else {
                before.stats.total_requests
            }
            &&& after.unwrap().stats.success_count == if delivers_with(state, event, id) {
                bump64(before.stats.success_count)
            } else {
                before.stats.success_count
            }
        }),
{
    let at = place_of(pool.credentials, id);
    assert(holds_at(pool.credentials, id, at));
    match state {
        ImageStateView::Start => match event {
            ImageEvent::Arrived { prompt, model, n, response_format, store_ready } => {
                if reaches_selection(trimmed(prompt@).len() == 0, store_ready) {
                    lemma_select_keeps_counts(pool, image_provider(), None, now, draw, id);
                }
            },
            _ => {},
        },
        ImageStateView::Loading(flow) => match event {
            ImageEvent::TokenMissing { error } => {
                let report = |c: CredentialView|
                    after_failure(
                        pool.config,
                        c,
                        FailureClass::Transient,
                        load_failure_reason(error@),
                        now,
                    );
                lemma_one_change(pool, flow.credential_id, report, id);
            },
            _ => {},
        },
        ImageStateView::Refreshing(flow) => match event {
            ImageEvent::RefreshFailed(details) => {
                let report = |c: CredentialView|
                    after_failure(pool.config, c, details.class(), details.user_message@, now);
                lemma_one_change(pool, flow.credential_id, report, id);
            },
            _ => {},
        },
        ImageStateView::Calling(flow) => match event {
            ImageEvent::ImagesReceived { request, answer, images } => {
                let report = |c: CredentialView| after_success(c);
                let count = |c: CredentialView| used(c);
                lemma_one_change(pool, flow.credential_id, report, id);
                lemma_one_change(pool.change(flow.credential_id, report), flow.credential_id, count, id);
            },
            ImageEvent::AnswerUnreadable { answer, error } => {
                let count = |c: CredentialView| used(c);
                lemma_one_change(pool, flow.credential_id, count, id);
            },
            ImageEvent::CallFailed { error } => {
                let report = |c: CredentialView|
                    after_failure(pool.config, c, FailureClass::Transient, error@, now);
                let count = |c: CredentialView| used(c);
                lemma_one_change(pool, flow.credential_id, report, id);
                lemma_one_change(pool.change(flow.credential_id, report), flow.credential_id, count, id);
            },
            _ => {},
        },
        _ => {},
    }
}

/// A change that keeps the id of the credential it is made to leaves
/// every credential in the pool: the one with the id `changed` is found
/// changed, any other as it was; and where no credential has that id,
/// nothing changes.
pub proof fn lemma_one_change(
    pool: PoolView,
    changed: u64,
    change: spec_fn(CredentialView) -> CredentialView,
    id: u64,
)
    requires
        pool.wf(),
        has_id(pool.credentials, id),
        forall|c: CredentialView| (#[trigger] change(c)).id == c.id,
    ensures
        pool.change(changed, change).wf(),
        pool.change(changed, change).config == pool.config,
        lookup(pool.change(changed, change).credentials, id) == if changed == id {
            Some(change(lookup(pool.credentials, id).unwrap()))
        } else {
            lookup(pool.credentials, id)
        },
{
    if has_id(pool.credentials, changed) {
        let at = place_of(pool.credentials, changed);
        assert(holds_at(pool.credentials, changed, at));
        lemma_change_is_found(pool, changed, change, id);
    }
}

/// Every upstream call that ended counts as exactly one use, whatever
/// came of it, and every delivery as exactly one success: after any run
/// of steps, of any number of requests that fall between each other in
/// any way, the total of uses of a credential has grown by the number of
/// calls that were made with it and have ended, and its successes by the
/// number of those that brought images. So of requests that are all
/// served by one credential and all deliver, each adds one use and one
/// success, and none is lost. This holds as long as the counters can hold
/// the sums.
pub proof fn lemma_every_call_is_one_use(pool: PoolView, steps: Seq<RunStep>, id: u64)
    requires
        pool.wf(),
        lookup(pool.credentials, id) matches Some(c) && c.stats.total_requests + calls_ended(
            steps,
            id,
        ) <= u64::MAX && c.stats.success_count + images_delivered(steps, id) <= u64::MAX,
    ensures
        after_run(pool, steps).wf(),
        after_run(pool, steps).config == pool.config,
        lookup(after_run(pool, steps).credentials, id) matches Some(d) && {
            &&& d.stats.total_requests == lookup(pool.credentials, id).unwrap().stats.total_requests
                + calls_ended(steps, id)
            &&& d.stats.success_count == lookup(pool.credentials, id).unwrap().stats.success_count
                + images_delivered(steps, id)
        },
    decreases steps.len(),
{
    assert(holds_at(pool.credentials, id, place_of(pool.credentials, id)));
    if steps.len() > 0 {
        lemma_every_call_is_one_use(pool, steps.drop_last(), id);
        let before = after_run(pool, steps.drop_last());
        assert(holds_at(before.credentials, id, place_of(before.credentials, id)));
        lemma_step_counts(
            before,
            steps.last().state,
            steps.last().event,
            steps.last().now,
            steps.last().draw,
            id,
        );
    }
}

} // verus!
