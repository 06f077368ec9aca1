//! What holds of the pool whatever its state: laws that relate its
//! operations to each other, stated over the views that their contracts
//! use.

use vstd::prelude::*;
use crate::credential::balancer::{
    choice, cursor_after_rounds, cursor_of, lemma_choice_in_range, lemma_round_robin_cycles, turn,
    BalanceStrategy,
};
use crate::credential::health::{
    after_enable, after_failure, after_success, after_transient_failures,
    lemma_repeated_failures_cool_down, FailureClass, HealthCheckConfig,
};
use crate::credential::pool::{
    handed_out, lemma_selectable_places, selectable_places, used, PoolView,
};
use crate::credential::registry::{
    ascending, has_id, holds_at, lemma_place_is_unique, lookup, place_of,
};
use crate::credential::types::{CredentialStats, CredentialView, StatusView};

verus! {

/// The part of a credential that says who it is and what it holds. No
/// report and no selection changes it.
pub open spec fn same_identity(a: CredentialView, b: CredentialView) -> bool {
    &&& a.id == b.id
    &&& a.provider == b.provider
    &&& a.data == b.data
    &&& a.tags == b.tags
    &&& a.priority == b.priority
}

/// Reports, uses and selections leave the id, the provider, the secret,
/// the tags and the priority of a credential as they were at its creation.
pub proof fn lemma_identity_is_kept(
    config: HealthCheckConfig,
    c: CredentialView,
    class: FailureClass,
    reason: Seq<char>,
    now: u64,
)
    ensures
        same_identity(after_success(c), c),
        same_identity(after_failure(config, c, class, reason, now), c),
        same_identity(after_enable(c), c),
        same_identity(used(c), c),
        same_identity(handed_out(c, now), c),
{
}

/// Said twice, a report moves the status no further than said once; only
/// the counters tell how often it was said. This holds of a success, of a
/// failure that calls for a new authorisation, and of an operator's word.
pub proof fn lemma_reports_repeat_safely(
    config: HealthCheckConfig,
    c: CredentialView,
    reason: Seq<char>,
    now: u64,
)
    ensures
        after_success(after_success(c)).status == after_success(c).status,
        after_success(after_success(c)).stats.consecutive_failures == after_success(
            c,
        ).stats.consecutive_failures,
        after_failure(
            config,
            after_failure(config, c, FailureClass::RequiresReauth, reason, now),
            FailureClass::RequiresReauth,
            reason,
            now,
        ).status == after_failure(config, c, FailureClass::RequiresReauth, reason, now).status,
        after_enable(after_enable(c)) == after_enable(c),
        handed_out(handed_out(c, now), now) == handed_out(c, now),
{
}

/// A change of the credential with the id `id` that keeps its id is what
/// a lookup of that id finds afterwards; every other credential is found
/// as before, and the order of ids is kept.
pub proof fn lemma_change_is_found(
    pool: PoolView,
    id: u64,
    change: spec_fn(CredentialView) -> CredentialView,
    other: u64,
)
    requires
        pool.wf(),
        lookup(pool.credentials, id) matches Some(c) && change(c).id == id,
    ensures
        pool.change(id, change).wf(),
        lookup(pool.change(id, change).credentials, id) == Some(
            change(lookup(pool.credentials, id).unwrap()),
        ),
        other != id ==> lookup(pool.change(id, change).credentials, other) == lookup(
            pool.credentials,
            other,
        ),
{
    let before = pool.credentials;
    let place = place_of(before, id);
    assert(holds_at(before, id, place));
    let after = pool.change(id, change).credentials;
    assert(after == before.update(place, change(before[place])));
    assert forall|i: int, j: int| 0 <= i < j < after.len() implies (#[trigger] after[i]).id
        < (#[trigger] after[j]).id by {
        assert(before[i].id < before[j].id);
    }
    lemma_place_is_unique(after, id, place);
    if other != id {
        if has_id(before, other) {
            let at = place_of(before, other);
            assert(holds_at(before, other, at));
            lemma_place_is_unique(before, other, at);
            assert(holds_at(after, other, at));
            lemma_place_is_unique(after, other, at);
        } else {
            assert forall|k: int| !holds_at(after, other, k) by {
                if holds_at(after, other, k) {
                    assert(holds_at(before, other, k));
                }
            }
        }
    }
}

/// What a selection hands out is a credential of the pool that belongs to
/// the provider, carries the tag that was asked for, and may be used at
/// that moment: it is not disabled, and not in a cooldown that still runs.
pub proof fn lemma_selected_is_selectable(
    pool: PoolView,
    provider: Seq<char>,
    tag: Option<Seq<char>>,
    now: u64,
    draw: u64,
)
    requires
        pool.wf(),
    ensures
        pool.chosen_place(provider, tag, now, draw) matches Some(place) ==> {
            &&& 0 <= place < pool.credentials.len()
            &&& pool.credentials[place].selectable(provider, tag, now)
            &&& pool.places(provider, tag, now).contains(place)
        },
        pool.selected(provider, tag, now, draw) matches Some(c) ==> {
            &&& c.matches(provider, tag)
            &&& c.status.eligible_at(now)
            &&& !c.status.cooling_at(now)
            &&& !(c.status is Disabled)
            &&& has_id(pool.credentials, c.id)
        },
        pool.selected(provider, tag, now, draw) is None <==> pool.places(provider, tag, now).len()
            == 0,
{
    let places = pool.places(provider, tag, now);
    lemma_selectable_places(pool.credentials, provider, tag, now, pool.credentials.len());
    if places.len() > 0 {
        let candidates = pool.candidates(provider, tag, now);
        lemma_choice_in_range(pool.strategy, cursor_of(pool.cursors, provider), candidates, draw);
        let k = choice(pool.strategy, cursor_of(pool.cursors, provider), candidates, draw);
        let place = places[k];
        assert(pool.credentials[place].selectable(provider, tag, now));
        assert(holds_at(pool.credentials, pool.credentials[place].id, place));
    }
}

/// A credential that may not be used at `now`, be it in a cooldown that
/// still runs or disabled, is never handed out by a selection at `now`.
pub proof fn lemma_unusable_is_never_selected(
    pool: PoolView,
    provider: Seq<char>,
    tag: Option<Seq<char>>,
    now: u64,
    draw: u64,
    i: int,
)
    requires
        pool.wf(),
        0 <= i < pool.credentials.len(),
        pool.credentials[i].status.cooling_at(now) || pool.credentials[i].status is Disabled,
    ensures
        pool.chosen_place(provider, tag, now, draw) != Some(i),
        pool.selected(provider, tag, now, draw) matches Some(c) ==> c.id != pool.credentials[i].id,
{
    lemma_selected_is_selectable(pool, provider, tag, now, draw);
    match pool.chosen_place(provider, tag, now, draw) {
        Some(place) => {
            if place < i {
                assert(pool.credentials[place].id < pool.credentials[i].id);
            }
            if i < place {
                assert(pool.credentials[i].id < pool.credentials[place].id);
            }
        },
        None => {},
    }
}

/// Once the time of a cooldown has passed, the credential is among those
/// that a selection chooses from, with no call to bring it back; and where
/// no other credential matches, it is the one handed out.
pub proof fn lemma_expired_cooldown_is_selectable(
    pool: PoolView,
    provider: Seq<char>,
    tag: Option<Seq<char>>,
    now: u64,
    draw: u64,
    i: int,
)
    requires
        pool.wf(),
        0 <= i < pool.credentials.len(),
        pool.credentials[i].matches(provider, tag),
        pool.credentials[i].status matches StatusView::Cooldown { until } && now >= until,
    ensures
        pool.places(provider, tag, now).contains(i),
        pool.selected(provider, tag, now, draw) is Some,
        (forall|j: int|
            0 <= j < pool.credentials.len() && j != i ==> !(#[trigger] pool.credentials[j]).matches(
                provider,
                tag,
            )) ==> pool.chosen_place(provider, tag, now, draw) == Some(i),
{
    lemma_selectable_places(pool.credentials, provider, tag, now, pool.credentials.len());
    lemma_selected_is_selectable(pool, provider, tag, now, draw);
    assert(pool.credentials[i].selectable(provider, tag, now));
    let places = pool.places(provider, tag, now);
    assert(places.contains(i));
}

/// Handing a credential out changes neither who may be selected nor in
/// which order: the places stay what they were.
pub proof fn lemma_select_keeps_places(
    pool: PoolView,
    provider: Seq<char>,
    tag: Option<Seq<char>>,
    now: u64,
    draw: u64,
    n: nat,
)
    requires
        pool.wf(),
        n <= pool.credentials.len(),
    ensures
        pool.after_select(provider, tag, now, draw).wf(),
        pool.after_select(provider, tag, now, draw).credentials.len() == pool.credentials.len(),
        selectable_places(
            pool.after_select(provider, tag, now, draw).credentials,
            provider,
            tag,
            now,
            n,
        ) == selectable_places(pool.credentials, provider, tag, now, n),
    decreases n,
{
    lemma_selected_is_selectable(pool, provider, tag, now, draw);
    let after = pool.after_select(provider, tag, now, draw).credentials;
    assert forall|i: int, j: int| 0 <= i < j < after.len() implies (#[trigger] after[i]).id
        < (#[trigger] after[j]).id by {
        assert(pool.credentials[i].id < pool.credentials[j].id);
    }
    if n > 0 {
        lemma_select_keeps_places(pool, provider, tag, now, draw, (n - 1) as nat);
    }
}

/// The pool after `rounds` selections in a row for the same provider and
/// tag at the same moment.
pub open spec fn after_rounds(
    pool: PoolView,
    provider: Seq<char>,
    tag: Option<Seq<char>>,
    now: u64,
    rounds: nat,
) -> PoolView
    decreases rounds,
{
    if rounds == 0 {
        pool
    } else {
        after_rounds(pool, provider, tag, now, (rounds - 1) as nat).after_select(
            provider,
            tag,
            now,
            0,
        )
    }
}

/// Round robin hands the selectable credentials out in turn: with nothing
/// reported in between, the selection after `rounds` earlier ones hands
/// out the credential that stands `rounds` places after the first turn,
/// counted in a circle over the credentials in ascending order of id.
pub proof fn lemma_round_robin_in_turn(
    pool: PoolView,
    provider: Seq<char>,
    tag: Option<Seq<char>>,
    now: u64,
    rounds: nat,
)
    requires
        pool.wf(),
        pool.strategy == BalanceStrategy::RoundRobin,
        pool.places(provider, tag, now).len() > 0,
    ensures
        ({
            let places = pool.places(provider, tag, now);
            let then = after_rounds(pool, provider, tag, now, rounds);
            let first = turn(cursor_of(pool.cursors, provider), places.len());
            &&& then.wf()
            &&& then.strategy == BalanceStrategy::RoundRobin
            &&& then.places(provider, tag, now) == places
            &&& cursor_of(then.cursors, provider) == cursor_after_rounds(
                cursor_of(pool.cursors, provider),
                places.len(),
                rounds,
            )
            &&& then.chosen_place(provider, tag, now, 0) == Some(
                places[(first + rounds) % (places.len() as int)],
            )
        }),
    decreases rounds,
{
    let places = pool.places(provider, tag, now);
    if rounds > 0 {
        let before = after_rounds(pool, provider, tag, now, (rounds - 1) as nat);
        lemma_round_robin_in_turn(pool, provider, tag, now, (rounds - 1) as nat);
        lemma_select_keeps_places(before, provider, tag, now, 0, before.credentials.len());
    }
    lemma_round_robin_cycles(cursor_of(pool.cursors, provider), places.len(), rounds);
}

/// The credential after `n` uses were counted.
pub open spec fn after_uses(c: CredentialView, n: nat) -> CredentialView
    decreases n,
{
    if n == 0 {
        c
    } else {
        used(after_uses(c, (n - 1) as nat))
    }
}

/// The pool after `n` uses of the credential with the id `id` were
/// counted, one call after the other.
pub open spec fn after_usage_calls(pool: PoolView, id: u64, n: nat) -> PoolView
    decreases n,
{
    if n == 0 {
        pool
    } else {
        after_usage_calls(pool, id, (n - 1) as nat).change(id, |c: CredentialView| used(c))
    }
}

/// No use is lost: `n` uses counted one after the other, in whatever order
/// the callers came, add exactly `n` to the total, as long as the counter
/// can hold it. Nothing else of the credential changes.
pub proof fn lemma_uses_add_up(c: CredentialView, n: nat)
    requires
        c.stats.total_requests + n <= u64::MAX,
    ensures
        after_uses(c, n).stats.total_requests == c.stats.total_requests + n,
        after_uses(c, n) == (CredentialView {
            stats: CredentialStats {
                total_requests: (c.stats.total_requests + n) as u64,
                ..c.stats
            },
            ..c
        }),
    decreases n,
{
    if n > 0 {
        lemma_uses_add_up(c, (n - 1) as nat);
    }
}

/// The same, of the pool: after `n` calls that count a use of the
/// credential with the id `id`, its total has grown by exactly `n`.
pub proof fn lemma_usage_calls_add_up(pool: PoolView, id: u64, n: nat)
    requires
        pool.wf(),
        lookup(pool.credentials, id) matches Some(c) && c.stats.total_requests + n <= u64::MAX,
    ensures
        after_usage_calls(pool, id, n).wf(),
        lookup(after_usage_calls(pool, id, n).credentials, id) == Some(
            after_uses(lookup(pool.credentials, id).unwrap(), n),
        ),
        lookup(after_usage_calls(pool, id, n).credentials, id).unwrap().stats.total_requests
            == lookup(pool.credentials, id).unwrap().stats.total_requests + n,
    decreases n,
{
    let c = lookup(pool.credentials, id).unwrap();
    assert(holds_at(pool.credentials, id, place_of(pool.credentials, id)));
    lemma_uses_add_up(c, n);
    if n > 0 {
        lemma_usage_calls_add_up(pool, id, (n - 1) as nat);
        lemma_uses_add_up(c, (n - 1) as nat);
        let before = after_usage_calls(pool, id, (n - 1) as nat);
        lemma_change_is_found(before, id, |c: CredentialView| used(c), id);
    }
}

/// The pool after one transient failure of the credential with the id
/// `id` was reported at each of `times`, in turn.
pub open spec fn after_failure_calls(pool: PoolView, id: u64, times: Seq<u64>) -> PoolView
    decreases times.len(),
{
    if times.len() == 0 {
        pool
    } else {
        after_failure_calls(pool, id, times.drop_last()).change(
            id,
            |c: CredentialView|
                after_failure(
                    pool.config,
                    c,
                    FailureClass::Transient,
                    Seq::<char>::empty(),
                    times.last(),
                ),
        )
    }
}

/// Once as many transient failures of a credential have been reported in
/// a row as the threshold asks for, and one at least, it is in a cooldown,
/// and a selection at the moment of the last report does not hand it out.
pub proof fn lemma_failures_take_out_of_rotation(
    pool: PoolView,
    id: u64,
    times: Seq<u64>,
    provider: Seq<char>,
    tag: Option<Seq<char>>,
    draw: u64,
)
    requires
        pool.wf(),
        lookup(pool.credentials, id) matches Some(c) && !(c.status is Disabled),
        times.len() >= 1,
        times.len() >= pool.config.max_consecutive_failures(),
        times.last() < u64::MAX,
    ensures
        ({
            let then = after_failure_calls(pool, id, times);
            &&& then.wf()
            &&& lookup(then.credentials, id) matches Some(c) && c.status is Cooldown
            &&& then.selected(provider, tag, times.last(), draw) matches Some(c) ==> c.id != id
        }),
{
    let c = lookup(pool.credentials, id).unwrap();
    lemma_failure_calls(pool, id, times);
    lemma_repeated_failures_cool_down(pool.config, c, times);
    let then = after_failure_calls(pool, id, times);
    let place = place_of(then.credentials, id);
    assert(holds_at(then.credentials, id, place));
    lemma_unusable_is_never_selected(then, provider, tag, times.last(), draw, place);
}

/// Failures reported through the pool are the failures of the state
/// machine, applied to the credential in the same order.
pub proof fn lemma_failure_calls(pool: PoolView, id: u64, times: Seq<u64>)
    requires
        pool.wf(),
        has_id(pool.credentials, id),
    ensures
        after_failure_calls(pool, id, times).wf(),
        after_failure_calls(pool, id, times).config == pool.config,
        lookup(after_failure_calls(pool, id, times).credentials, id) == Some(
            after_transient_failures(
                pool.config,
                lookup(pool.credentials, id).unwrap(),
                times,
            ),
        ),
    decreases times.len(),
{
    assert(holds_at(pool.credentials, id, place_of(pool.credentials, id)));
    if times.len() > 0 {
        lemma_failure_calls(pool, id, times.drop_last());
        let before = after_failure_calls(pool, id, times.drop_last());
        lemma_change_is_found(
            before,
            id,
            |c: CredentialView|
                after_failure(
                    pool.config,
                    c,
                    FailureClass::Transient,
                    Seq::<char>::empty(),
                    times.last(),
                ),
            id,
        );
    }
}

} // verus!
