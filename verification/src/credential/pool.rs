//! The pool: the one place through which credentials are selected and
//! their outcomes reported.
//!
//! A pool is a plain value. Each operation takes it by exclusive reference
//! and is one step from one state of the pool to the next, so callers that
//! share a pool behind a lock see every change of a credential whole, and
//! any interleaving of their calls is a sequence of such steps.

use vstd::prelude::*;
use crate::credential::balancer::{
    choice, cursor_of, cursors_after, BalanceStrategy, Candidate, LoadBalancer,
};
use crate::credential::health::{
    after_enable, after_failure, after_success, FailureClass, FailureDetails, HealthCheckConfig,
    HealthChecker,
};
use crate::credential::registry::{
    ascending, has_id, holds_at, lemma_place_is_unique, lemma_rank_is_boundary, lookup,
    of_provider, place_of, upserted, views, CredentialRegistry,
};
use crate::credential::summary::{
    cooldown_info, cooldown_of, summarize, summary, CooldownInfo, PoolStatus,
};
use crate::credential::sync::{
    record_of, record_views, CredentialSyncService, SyncRecord, SyncRecordView,
};
use crate::credential::types::{
    bump64, text_opt, texts, Credential, CredentialData, CredentialStats, CredentialView,
    StatusView,
};

verus! {

/// Why an operation of the pool did not do what was asked.
#[derive(Clone, Copy, Debug, PartialEq, Eq, Structural)]
pub enum PoolError {
    /// No credential has the given id.
    NotFound(u64),
    /// No credential of the provider may be used right now.
    NoAvailableCredential,
    /// The credential does not hold the kind of secret that was asked for.
    InvalidCredentialVariant,
}

/// The credential after one more use was counted.
pub open spec fn used(c: CredentialView) -> CredentialView {
    CredentialView {
        stats: CredentialStats { total_requests: bump64(c.stats.total_requests), ..c.stats },
        ..c
    }
}

/// The credential after it was handed out at `now`.
pub open spec fn handed_out(c: CredentialView, now: u64) -> CredentialView {
    CredentialView { stats: CredentialStats { last_used_at: Some(now), ..c.stats }, ..c }
}

/// The places, in order, of those among the first `n` credentials that
/// belong to `provider`, carry the tag where one is asked for, and may be
/// selected at `now`.
pub open spec fn selectable_places(
    credentials: Seq<CredentialView>,
    provider: Seq<char>,
    tag: Option<Seq<char>>,
    now: u64,
    n: nat,
) -> Seq<int>
    decreases n,
{
    if n == 0 {
        Seq::<int>::empty()
    } else {
        let rest = selectable_places(credentials, provider, tag, now, (n - 1) as nat);
        if credentials[n - 1].selectable(provider, tag, now) {
            rest.push(n - 1)
        } else {
            rest
        }
    }
}

/// The candidates that stand for the credentials at `places`.
pub open spec fn candidates_at(credentials: Seq<CredentialView>, places: Seq<int>) -> Seq<
    Candidate,
> {
    Seq::new(places.len(), |k: int| Candidate::of(credentials[places[k]]))
}

/// The view of an optional tag.
pub open spec fn tag_view(tag: Option<&str>) -> Option<Seq<char>> {
    match tag {
        Some(t) => Some(t@),
        None => None,
    }
}

/// The state of a pool.
pub struct PoolView {
    /// The credentials, in ascending order of id.
    pub credentials: Seq<CredentialView>,
    /// The tunables of the health state machine.
    pub config: HealthCheckConfig,
    /// The strategy of the load balancer.
    pub strategy: BalanceStrategy,
    /// The round-robin cursors by provider.
    pub cursors: Map<Seq<char>, nat>,
    /// The state changes that wait to be written, oldest first.
    pub unsaved: Seq<SyncRecordView>,
    /// The id that the next new credential gets; at the largest id, none
    /// is left to give.
    pub next_id: u64,
}

impl PoolView {
    /// The credentials are in ascending order of id, the tunables are
    /// valid, and as long as ids are left to give, the next one is above
    /// all that are in use.
    pub open spec fn wf(self) -> bool {
        &&& ascending(self.credentials)
        &&& self.config.valid()
        &&& self.next_id < u64::MAX ==> forall|i: int|
            0 <= i < self.credentials.len() ==> (#[trigger] self.credentials[i]).id
                < self.next_id
    }

    /// The pool after the credential with the id `id` has become `next`,
    /// and that state was noted for writing.
    pub open spec fn with_state(self, id: u64, next: CredentialView) -> PoolView {
        PoolView {
            credentials: self.credentials.update(place_of(self.credentials, id), next),
            unsaved: self.unsaved.push(record_of(next)),
            ..self
        }
    }

    /// The places of the credentials that may be selected, in ascending
    /// order of id.
    pub open spec fn places(self, provider: Seq<char>, tag: Option<Seq<char>>, now: u64) -> Seq<
        int,
    > {
        selectable_places(self.credentials, provider, tag, now, self.credentials.len())
    }

    /// The candidates among which the balancer chooses.
    pub open spec fn candidates(
        self,
        provider: Seq<char>,
        tag: Option<Seq<char>>,
        now: u64,
    ) -> Seq<Candidate> {
        candidates_at(self.credentials, self.places(provider, tag, now))
    }

    /// The place of the credential that a selection hands out, or `None`
    /// where no credential may be selected.
    pub open spec fn chosen_place(
        self,
        provider: Seq<char>,
        tag: Option<Seq<char>>,
        now: u64,
        draw: u64,
    ) -> Option<int> {
        let places = self.places(provider, tag, now);
        if places.len() == 0 {
            None
        } else {
            Some(
                places[choice(
                    self.strategy,
                    cursor_of(self.cursors, provider),
                    self.candidates(provider, tag, now),
                    draw,
                )],
            )
        }
    }

    /// The credential that a selection hands out, as it is handed out.
    pub open spec fn selected(
        self,
        provider: Seq<char>,
        tag: Option<Seq<char>>,
        now: u64,
        draw: u64,
    ) -> Option<CredentialView> {
        match self.chosen_place(provider, tag, now, draw) {
            Some(place) => Some(handed_out(self.credentials[place], now)),
            None => None,
        }
    }

    /// The pool after a selection: the chosen credential carries the time,
    /// its state is noted for writing, and the cursor of the provider has
    /// moved on where the strategy keeps one. Where nothing may be
    /// selected, nothing changes.
    pub open spec fn after_select(
        self,
        provider: Seq<char>,
        tag: Option<Seq<char>>,
        now: u64,
        draw: u64,
    ) -> PoolView {
        match self.chosen_place(provider, tag, now, draw) {
            Some(place) => PoolView {
                credentials: self.credentials.update(
                    place,
                    handed_out(self.credentials[place], now),
                ),
                unsaved: self.unsaved.push(record_of(handed_out(self.credentials[place], now))),
                cursors: cursors_after(
                    self.strategy,
                    self.cursors,
                    provider,
                    self.candidates(provider, tag, now),
                ),
                ..self
            },
            None => self,
        }
    }

    /// The pool after `change` was applied to the credential with the id
    /// `id`; the same pool where there is none.
    pub open spec fn change(self, id: u64, change: spec_fn(CredentialView) -> CredentialView)
        -> PoolView {
        match lookup(self.credentials, id) {
            Some(c) => self.with_state(id, change(c)),
            None => self,
        }
    }
}

/// What a change of one credential returns: nothing, or that there is no
/// such credential.
pub open spec fn found(credentials: Seq<CredentialView>, id: u64) -> Result<(), PoolError> {
    if has_id(credentials, id) {
        Ok(())
    } else {
        Err(PoolError::NotFound(id))
    }
}

/// A selectable place is a place of a credential that may be selected;
/// the places come in ascending order; and no such credential is left out.
pub proof fn lemma_selectable_places(
    credentials: Seq<CredentialView>,
    provider: Seq<char>,
    tag: Option<Seq<char>>,
    now: u64,
    n: nat,
)
    requires
        n <= credentials.len(),
    ensures
        selectable_places(credentials, provider, tag, now, n).len() <= n,
        forall|k: int|
            0 <= k < selectable_places(credentials, provider, tag, now, n).len() ==> {
                &&& 0 <= (#[trigger] selectable_places(credentials, provider, tag, now, n)[k]) < n
                &&& credentials[selectable_places(
                    credentials,
                    provider,
                    tag,
                    now,
                    n,
                )[k]].selectable(provider, tag, now)
            },
        forall|k: int, l: int|
            0 <= k < l < selectable_places(credentials, provider, tag, now, n).len()
                ==> (#[trigger] selectable_places(credentials, provider, tag, now, n)[k])
                < (#[trigger] selectable_places(credentials, provider, tag, now, n)[l]),
        forall|j: int|
            0 <= j < n && (#[trigger] credentials[j]).selectable(provider, tag, now)
                ==> selectable_places(credentials, provider, tag, now, n).contains(j),
    decreases n,
{
    if n > 0 {
        let rest = selectable_places(credentials, provider, tag, now, (n - 1) as nat);
        lemma_selectable_places(credentials, provider, tag, now, (n - 1) as nat);
        let all = selectable_places(credentials, provider, tag, now, n);
        assert forall|j: int|
            0 <= j < n && (#[trigger] credentials[j]).selectable(
                provider,
                tag,
                now,
            ) implies all.contains(j) by {
            if j < n - 1 {
                assert(rest.contains(j));
                let k = choose|k: int| 0 <= k < rest.len() && rest[k] == j;
                assert(all[k] == j);
            } else {
                assert(all[all.len() - 1] == j);
            }
        }
    }
}

/// The list that comes of putting the first `n` of `incoming` into an
/// empty registry, one after the other.
pub open spec fn merged(incoming: Seq<CredentialView>, n: nat) -> Seq<CredentialView>
    decreases n,
{
    if n == 0 {
        Seq::<CredentialView>::empty()
    } else {
        upserted(merged(incoming, (n - 1) as nat), incoming[n - 1])
    }
}

/// The id that follows the highest of a list in ascending order, as far as
/// there is one.
pub open spec fn next_after(credentials: Seq<CredentialView>) -> u64 {
    if credentials.len() == 0 {
        0
    } else if credentials.last().id == u64::MAX {
        u64::MAX
    } else {
        (credentials.last().id + 1) as u64
    }
}

/// The pool of credentials.
pub struct CredentialPool {
    registry: CredentialRegistry,
    health: HealthChecker,
    balancer: LoadBalancer,
    sync: CredentialSyncService,
    next_id: u64,
}

impl View for CredentialPool {
    type V = PoolView;

    closed spec fn view(&self) -> PoolView {
        PoolView {
            credentials: self.registry@,
            config: self.health.config,
            strategy: self.balancer.strategy(),
            cursors: self.balancer.cursors(),
            unsaved: self.sync@,
            next_id: self.next_id,
        }
    }
}

impl CredentialPool {
    /// The cursors of the balancer are kept as they should be.
    pub closed spec fn cursors_wf(&self) -> bool {
        self.balancer.wf()
    }

    /// The pool is in a state that its operations keep up.
    pub open spec fn wf(&self) -> bool {
        self@.wf() && self.cursors_wf()
    }

    /// A pool without credentials.
    pub fn new(config: HealthCheckConfig, strategy: BalanceStrategy) -> (r: CredentialPool)
        ensures
            r.wf(),
            r@ == (PoolView {
                credentials: Seq::<CredentialView>::empty(),
                config,
                strategy,
                cursors: Map::<Seq<char>, nat>::empty(),
                unsaved: Seq::<SyncRecordView>::empty(),
                next_id: 0,
            }),
    {
        proof {
            use_type_invariant(&config);
        }
        CredentialPool {
            registry: CredentialRegistry::new(),
            health: HealthChecker::new(config),
            balancer: LoadBalancer::new(strategy),
            sync: CredentialSyncService::new(),
            next_id: 0,
        }
    }

    /// How many credentials the pool holds.
    pub fn len(&self) -> (r: usize)
        ensures
            r == self@.credentials.len(),
    {
        self.registry.len()
    }

    /// The tunables of the health state machine.
    pub fn config(&self) -> (r: HealthCheckConfig)
        ensures
            r == self@.config,
    {
        self.health.config
    }

    /// The strategy of the load balancer.
    pub fn strategy(&self) -> (r: BalanceStrategy)
        ensures
            r == self@.strategy,
    {
        self.balancer.strategy()
    }

    /// Takes new tunables and a new strategy in one step: no operation sees
    /// one without the other. Credentials and cursors stay as they are.
    pub fn reconfigure(&mut self, config: HealthCheckConfig, strategy: BalanceStrategy)
        requires
            old(self).wf(),
        ensures
            final(self).wf(),
            final(self)@ == (PoolView { config, strategy, ..old(self)@ }),
    {
        proof {
            use_type_invariant(&config);
        }
        self.health = HealthChecker::new(config);
        self.balancer.set_strategy(strategy);
    }

    /// A copy of the credential with the id `id`.
    pub fn credential(&self, id: u64) -> (r: Result<Credential, PoolError>)
        requires
            self.wf(),
        ensures
            match lookup(self@.credentials, id) {
                Some(c) => r matches Ok(x) && x@ == c,
                None => r == Err::<Credential, PoolError>(PoolError::NotFound(id)),
            },
    {
        match self.registry.get(id) {
            Some(c) => Ok(c.clone()),
            None => Err(PoolError::NotFound(id)),
        }
    }

    /// Copies of the credentials of `provider`, in ascending order of id.
    pub fn list(&self, provider: &str) -> (r: Vec<Credential>)
        ensures
            views(r@) == of_provider(self@.credentials, provider@),
    {
        self.registry.list(provider)
    }

    /// Puts `next` where the credential with the same id stands, and notes
    /// its state for writing.
    fn commit(&mut self, place: usize, next: Credential)
        requires
            old(self).wf(),
            place < old(self)@.credentials.len(),
            next.id == old(self)@.credentials[place as int].id,
        ensures
            final(self).wf(),
            final(self)@ == old(self)@.with_state(next.id, next@),
            final(self)@.credentials == old(self)@.credentials.update(place as int, next@),
            lookup(final(self)@.credentials, next.id) == Some(next@),
    {
        proof {
            lemma_place_is_unique(self@.credentials, next.id, place as int);
        }
        let ghost id = next.id;
        self.sync.persist(next.id, next.status.clone(), next.stats);
        self.registry.replace_at(place, next);
        proof {
            lemma_place_is_unique(self@.credentials, id, place as int);
        }
    }

    /// Reports that a call with the credential succeeded. The model that
    /// was served may be named; the pool keeps no record of it.
    pub fn mark_healthy(&mut self, id: u64, model: Option<&str>) -> (r: Result<(), PoolError>)
        requires
            old(self).wf(),
        ensures
            final(self).wf(),
            r == found(old(self)@.credentials, id),
            final(self)@ == old(self)@.change(id, |c: CredentialView| after_success(c)),
            r is Ok ==> lookup(final(self)@.credentials, id) == Some(
                after_success(lookup(old(self)@.credentials, id).unwrap()),
            ),
            r is Ok ==> {
                let c = lookup(final(self)@.credentials, id).unwrap();
                c.stats.consecutive_failures == 0 && !(c.status is Cooldown)
            },
    {
        match self.registry.position(id) {
            Some(place) => {
                let mut next: Credential = self.registry.at(place).clone();
                self.health.report_success(&mut next);
                self.commit(place, next);
                Ok(())
            },
            None => Err(PoolError::NotFound(id)),
        }
    }

    /// Reports a failure that may pass: the credential stays in rotation
    /// until enough of them have come in a row. The reason is for the
    /// caller's own records; the pool keeps none of it.
    pub fn mark_unhealthy(&mut self, id: u64, reason: &str, now: u64) -> (r: Result<
        (),
        PoolError,
    >)
        requires
            old(self).wf(),
        ensures
            final(self).wf(),
            r == found(old(self)@.credentials, id),
            final(self)@ == old(self)@.change(
                id,
                |c: CredentialView|
                    after_failure(old(self)@.config, c, FailureClass::Transient, reason@, now),
            ),
            r is Ok ==> lookup(final(self)@.credentials, id) == Some(
                after_failure(
                    old(self)@.config,
                    lookup(old(self)@.credentials, id).unwrap(),
                    FailureClass::Transient,
                    reason@,
                    now,
                ),
            ),
    {
        self.report_failure(id, FailureClass::Transient, reason, now)
    }

    /// Reports a failure with what the caller found out about it. The pool
    /// takes the caller's word for whether a new authorisation is needed:
    /// if so, the credential is disabled with the message as the reason;
    /// if not, the failure counts as one that may pass.
    pub fn mark_unhealthy_with_details(&mut self, id: u64, details: &FailureDetails, now: u64) -> (r:
        Result<(), PoolError>)
        requires
            old(self).wf(),
        ensures
            final(self).wf(),
            r == found(old(self)@.credentials, id),
            final(self)@ == old(self)@.change(
                id,
                |c: CredentialView|
                    after_failure(
                        old(self)@.config,
                        c,
                        details.class(),
                        details.user_message@,
                        now,
                    ),
            ),
            r is Ok ==> lookup(final(self)@.credentials, id) == Some(
                after_failure(
                    old(self)@.config,
                    lookup(old(self)@.credentials, id).unwrap(),
                    details.class(),
                    details.user_message@,
                    now,
                ),
            ),
            r is Ok && details.requires_reauth ==> lookup(
                final(self)@.credentials,
                id,
            ).unwrap().status == (StatusView::Disabled { reason: details.user_message@ }),
    {
        self.report_failure(
            id,
            details.classification(),
            details.user_message().as_str(),
            now,
        )
    }

    /// Reports a failure of the given class.
    pub fn report_failure(&mut self, id: u64, class: FailureClass, reason: &str, now: u64) -> (r:
        Result<(), PoolError>)
        requires
            old(self).wf(),
        ensures
            final(self).wf(),
            r == found(old(self)@.credentials, id),
            final(self)@ == old(self)@.change(
                id,
                |c: CredentialView| after_failure(old(self)@.config, c, class, reason@, now),
            ),
            r is Ok ==> lookup(final(self)@.credentials, id) == Some(
                after_failure(
                    old(self)@.config,
                    lookup(old(self)@.credentials, id).unwrap(),
                    class,
                    reason@,
                    now,
                ),
            ),
    {
        match self.registry.position(id) {
            Some(place) => {
                let mut next: Credential = self.registry.at(place).clone();
                self.health.report_failure(&mut next, class, reason, now);
                self.commit(place, next);
                Ok(())
            },
            None => Err(PoolError::NotFound(id)),
        }
    }

    /// Counts one use of the credential, whatever comes of the call.
    pub fn record_usage(&mut self, id: u64) -> (r: Result<(), PoolError>)
        requires
            old(self).wf(),
        ensures
            final(self).wf(),
            r == found(old(self)@.credentials, id),
            final(self)@ == old(self)@.change(id, |c: CredentialView| used(c)),
            r is Ok ==> lookup(final(self)@.credentials, id) == Some(
                used(lookup(old(self)@.credentials, id).unwrap()),
            ),
    {
        match self.registry.position(id) {
            Some(place) => {
                let mut next: Credential = self.registry.at(place).clone();
                if next.stats.total_requests < u64::MAX {
                    next.stats.total_requests = next.stats.total_requests + 1;
                }
                self.commit(place, next);
                Ok(())
            },
            None => Err(PoolError::NotFound(id)),
        }
    }

    /// Puts a disabled credential back into rotation, on an operator's
    /// word. Any other credential is left as it is.
    pub fn enable(&mut self, id: u64) -> (r: Result<(), PoolError>)
        requires
            old(self).wf(),
        ensures
            final(self).wf(),
            r == found(old(self)@.credentials, id),
            final(self)@ == old(self)@.change(id, |c: CredentialView| after_enable(c)),
            r is Ok ==> lookup(final(self)@.credentials, id) == Some(
                after_enable(lookup(old(self)@.credentials, id).unwrap()),
            ),
    {
        match self.registry.position(id) {
            Some(place) => {
                let mut next: Credential = self.registry.at(place).clone();
                self.health.enable(&mut next);
                self.commit(place, next);
                Ok(())
            },
            None => Err(PoolError::NotFound(id)),
        }
    }

    /// Gathers the credentials that may be selected: their places in the
    /// registry, and the candidates that stand for them.
    fn scan(&self, provider: &String, tag: &Option<String>, now: u64) -> (r: (
        Vec<usize>,
        Vec<Candidate>,
    ))
        requires
            self.wf(),
        ensures
            r.0@.len() == self@.places(provider@, text_opt(*tag), now).len(),
            forall|k: int|
                0 <= k < r.0@.len() ==> r.0@[k] as int == self@.places(
                    provider@,
                    text_opt(*tag),
                    now,
                )[k],
            r.1@ == self@.candidates(provider@, text_opt(*tag), now),
    {
        let n: usize = self.registry.len();
        let ghost credentials = self@.credentials;
        let ghost label = text_opt(*tag);
        let mut places: Vec<usize> = Vec::new();
        let mut candidates: Vec<Candidate> = Vec::new();
        let mut i: usize = 0;
        while i < n
            invariant
                i <= n,
                n == credentials.len(),
                credentials == self.registry@,
                label == text_opt(*tag),
                places@.len() == selectable_places(
                    credentials,
                    provider@,
                    label,
                    now,
                    i as nat,
                ).len(),
                forall|k: int|
                    0 <= k < places@.len() ==> places@[k] as int == selectable_places(
                        credentials,
                        provider@,
                        label,
                        now,
                        i as nat,
                    )[k],
                candidates@.len() == places@.len(),
                forall|k: int|
                    0 <= k < places@.len() ==> candidates@[k] == Candidate::of(
                        credentials[places@[k] as int],
                    ),
            decreases n - i,
        {
            let c: &Credential = self.registry.at(i);
            if c.status.is_eligible(now) && c.matches(provider, tag) {
                places.push(i);
                candidates.push(Candidate::from_credential(c));
            }
            i = i + 1;
        }
        assert(candidates@ =~= self@.candidates(provider@, label, now));
        (places, candidates)
    }

    /// Selects a credential of `provider` that may be used at `now`, among
    /// those that carry `tag` where one is given, and hands out a copy of
    /// it. The credential is not set aside: the next selection may hand it
    /// out again. `draw` is the lot for the strategies that draw one.
    pub fn select_credential(
        &mut self,
        provider: &str,
        tag: Option<&str>,
        now: u64,
        draw: u64,
    ) -> (r: Result<Credential, PoolError>)
        requires
            old(self).wf(),
        ensures
            final(self).wf(),
            match old(self)@.selected(provider@, tag_view(tag), now, draw) {
                Some(c) => r matches Ok(x) && x@ == c,
                None => r == Err::<Credential, PoolError>(PoolError::NoAvailableCredential),
            },
            final(self)@ == old(self)@.after_select(provider@, tag_view(tag), now, draw),
            r matches Ok(x) ==> x@.selectable(provider@, tag_view(tag), now) && lookup(
                final(self)@.credentials,
                x.id,
            ) == Some(x@),
    {
        let wanted: String = provider.to_owned();
        let label: Option<String> = match tag {
            Some(t) => Some(t.to_owned()),
            None => None,
        };
        let (places, candidates) = self.scan(&wanted, &label, now);
        proof {
            lemma_selectable_places(
                self@.credentials,
                provider@,
                tag_view(tag),
                now,
                self@.credentials.len(),
            );
        }
        match self.balancer.select(&wanted, &candidates, draw) {
            Some(k) => {
                let place: usize = places[k];
                let mut chosen: Credential = self.registry.at(place).clone();
                chosen.stats.last_used_at = Some(now);
                let copy: Credential = chosen.clone();
                self.commit(place, chosen);
                proof {
                    lemma_place_is_unique(
                        self@.credentials,
                        copy.id,
                        place as int,
                    );
                    assert(self@ =~= old(self)@.after_select(
                        provider@,
                        tag_view(tag),
                        now,
                        draw,
                    ));
                }
                Ok(copy)
            },
            None => Err(PoolError::NoAvailableCredential),
        }
    }

    /// Adds a new credential for `provider` under an id that was never in
    /// use in this pool, and returns that id; `None` where no id is left.
    /// The credential is active and has never been used.
    pub fn add_credential(
        &mut self,
        provider: &str,
        data: CredentialData,
        tags: Vec<String>,
        priority: u32,
    ) -> (r: Option<u64>)
        requires
            old(self).wf(),
        ensures
            final(self).wf(),
            match r {
                Some(id) => {
                    &&& id == old(self)@.next_id
                    &&& id < u64::MAX
                    &&& !has_id(old(self)@.credentials, id)
                    &&& final(self)@ == (PoolView {
                        credentials: old(self)@.credentials.push(
                            CredentialView {
                                id,
                                provider: provider@,
                                data: data@,
                                status: StatusView::Active,
                                stats: CredentialStats::fresh(),
                                tags: texts(tags@),
                                priority,
                            },
                        ),
                        next_id: (id + 1) as u64,
                        ..old(self)@
                    })
                },
                None => old(self)@.next_id == u64::MAX && final(self)@ == old(self)@,
            },
    {
        if self.next_id == u64::MAX {
            return None;
        }
        let id: u64 = self.next_id;
        let mut credential: Credential = Credential::new(id, provider, data);
        credential.tags = tags;
        credential.priority = priority;
        proof {
            let credentials = self@.credentials;
            assert forall|k: int| !holds_at(credentials, id, k) by {
                if 0 <= k < credentials.len() {
                    assert(credentials[k].id < id);
                }
            }
            lemma_rank_is_boundary(credentials, id, credentials.len() as int);
            assert(credentials.insert(credentials.len() as int, credential@) =~= credentials.push(
                credential@,
            ));
        }
        let previous = self.registry.upsert(credential);
        self.next_id = id + 1;
        Some(id)
    }

    /// Takes the credential with the id `id` out of the pool and hands it
    /// back. Its id is not given out again.
    pub fn remove_credential(&mut self, id: u64) -> (r: Result<Credential, PoolError>)
        requires
            old(self).wf(),
        ensures
            final(self).wf(),
            !has_id(final(self)@.credentials, id),
            match lookup(old(self)@.credentials, id) {
                Some(c) => {
                    &&& r matches Ok(x) && x@ == c
                    &&& final(self)@ == (PoolView {
                        credentials: old(self)@.credentials.remove(
                            place_of(old(self)@.credentials, id),
                        ),
                        ..old(self)@
                    })
                },
                None => r == Err::<Credential, PoolError>(PoolError::NotFound(id)) && final(self)@
                    == old(self)@,
            },
    {
        match self.registry.remove(id) {
            Some(taken) => Ok(taken),
            None => Err(PoolError::NotFound(id)),
        }
    }

    /// A pool that starts with the given credentials, as they come from
    /// the configuration or from storage, with their ids, states and
    /// counters. Where two of them share an id, the later one stands.
    pub fn with_credentials(
        config: HealthCheckConfig,
        strategy: BalanceStrategy,
        credentials: &Vec<Credential>,
    ) -> (r: CredentialPool)
        ensures
            r.wf(),
            r@ == (PoolView {
                credentials: merged(views(credentials@), credentials@.len()),
                config,
                strategy,
                cursors: Map::<Seq<char>, nat>::empty(),
                unsaved: Seq::<SyncRecordView>::empty(),
                next_id: next_after(merged(views(credentials@), credentials@.len())),
            }),
    {
        let mut pool = CredentialPool::new(config, strategy);
        let ghost all = views(credentials@);
        let mut taken: usize = 0;
        while taken < credentials.len()
            invariant
                pool.wf(),
                taken <= credentials@.len(),
                all == views(credentials@),
                pool@ == (PoolView {
                    credentials: merged(all, taken as nat),
                    config,
                    strategy,
                    cursors: Map::<Seq<char>, nat>::empty(),
                    unsaved: Seq::<SyncRecordView>::empty(),
                    next_id: next_after(merged(all, taken as nat)),
                }),
            decreases credentials@.len() - taken,
        {
            let next: Credential = credentials[taken].clone();
            let previous = pool.registry.upsert(next);
            taken = taken + 1;
            let highest: u64 = pool.registry.at(pool.registry.len() - 1).id;
            pool.next_id = if highest == u64::MAX {
                u64::MAX
            } else {
                highest + 1
            };
            proof {
                let now = pool@.credentials;
                assert forall|i: int| 0 <= i < now.len() implies (#[trigger] now[i]).id
                    <= highest by {
                    if i < now.len() - 1 {
                        assert(now[i].id < now[now.len() - 1].id);
                    }
                }
            }
        }
        pool
    }

    /// Counts the credentials by where they stand at `now`: those of the
    /// one provider that is named, or those of each provider that has any,
    /// in the order in which the providers first occur by id. Nothing in
    /// the pool changes. In every line the three counts add up to the
    /// number of credentials of the provider.
    pub fn status_summary(&self, provider: Option<&str>, now: u64) -> (r: PoolStatus)
        requires
            self.wf(),
        ensures
            r@ == summary(self@.credentials, tag_view(provider), now),
            forall|k: int|
                0 <= k < r@.len() ==> (#[trigger] r@[k]).active + r@[k].cooldown + r@[k].disabled
                    == of_provider(
                    self@.credentials,
                    r@[k].provider,
                ).len(),
    {
        summarize(&self.registry, provider, now)
    }

    /// How long the credential with the id `id` stays out of rotation,
    /// counted from `now`; `None` where it is not in a cooldown that is
    /// still running.
    pub fn cooldown_info(&self, id: u64, now: u64) -> (r: Result<Option<CooldownInfo>, PoolError>)
        requires
            self.wf(),
        ensures
            match lookup(self@.credentials, id) {
                Some(c) => r == Ok::<Option<CooldownInfo>, PoolError>(cooldown_of(c, now)),
                None => r == Err::<Option<CooldownInfo>, PoolError>(PoolError::NotFound(id)),
            },
    {
        match self.registry.get(id) {
            Some(c) => Ok(cooldown_info(c, now)),
            None => Err(PoolError::NotFound(id)),
        }
    }

    /// Hands out the state changes that wait to be written, oldest first.
    /// Nothing else in the pool changes, whatever becomes of the writes.
    pub fn take_unsaved(&mut self) -> (r: Vec<SyncRecord>)
        requires
            old(self).wf(),
        ensures
            final(self).wf(),
            record_views(r@) == old(self)@.unsaved,
            final(self)@ == (PoolView { unsaved: Seq::<SyncRecordView>::empty(), ..old(self)@ }),
    {
        self.sync.take_pending()
    }
}

} // verus!
