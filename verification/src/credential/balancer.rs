//! The load balancer: which of the credentials that may be used right now
//! is handed out next.
//!
//! The candidates come in ascending order of id. Where a strategy finds
//! several equally good, the first of them wins. Strategies that draw lots
//! take the draw as an argument, so every choice is a function of what is
//! passed in.

use vstd::prelude::*;
use crate::credential::types::{Credential, CredentialView};

verus! {

/// How the next credential is chosen.
#[derive(Clone, Copy, Debug, PartialEq, Eq, Structural)]
pub enum BalanceStrategy {
    /// Each candidate in turn, by a cursor kept for each provider.
    RoundRobin,
    /// The candidate that the draw falls on.
    Random,
    /// The candidate that was handed out longest ago, or never.
    LeastRecentlyUsed,
    /// A candidate drawn with a chance in proportion to its weight, which
    /// grows with its share of successes.
    WeightedBySuccessRate,
    /// Among the candidates of the highest priority, each in turn.
    Priority,
}

/// What the balancer reads of a credential.
#[derive(Clone, Copy, Debug, PartialEq, Eq)]
pub struct Candidate {
    pub id: u64,
    pub priority: u32,
    pub success_count: u64,
    pub failure_count: u64,
    pub last_used_at: Option<u64>,
}

impl Candidate {
    /// The candidate that stands for a credential.
    pub open spec fn of(c: CredentialView) -> Candidate {
        Candidate {
            id: c.id,
            priority: c.priority,
            success_count: c.stats.success_count,
            failure_count: c.stats.failure_count,
            last_used_at: c.stats.last_used_at,
        }
    }

    /// The candidate that stands for `credential`.
    pub fn from_credential(credential: &Credential) -> (r: Candidate)
        ensures
            r == Candidate::of(credential@),
    {
        Candidate {
            id: credential.id,
            priority: credential.priority,
            success_count: credential.stats.success_count,
            failure_count: credential.stats.failure_count,
            last_used_at: credential.stats.last_used_at,
        }
    }

    /// When the candidate was last used, with "never" before every time.
    pub open spec fn recency(self) -> int {
        match self.last_used_at {
            None => -1,
            Some(t) => t as int,
        }
    }

    /// The weight of the candidate in parts per million: its successes over
    /// one more than all its reported outcomes, rounded down.
    pub open spec fn weight(self) -> nat {
        ((self.success_count * WEIGHT_SCALE) / (self.success_count + self.failure_count
            + 1)) as nat
    }

    /// Computes [`Self::weight`].
    pub fn weigh(&self) -> (r: u128)
        ensures
            r == self.weight(),
            r <= WEIGHT_SCALE,
    {
        let successes: u128 = self.success_count as u128;
        let outcomes: u128 = successes + self.failure_count as u128 + 1;
        let scaled: u128 = successes * (WEIGHT_SCALE as u128);
        assert(scaled / outcomes <= WEIGHT_SCALE) by (nonlinear_arith)
            requires
                scaled == successes * WEIGHT_SCALE,
                outcomes >= successes + 1,
                successes >= 0,
        {}
        scaled / outcomes
    }
}

/// The weight of a candidate all of whose outcomes were successes tends to
/// this number.
pub const WEIGHT_SCALE: u64 = 1_000_000;

/// The place that the round-robin cursor points at among `n` candidates: a
/// cursor beyond the end stands for the last place.
pub open spec fn turn(cursor: nat, n: nat) -> int {
    if cursor < n {
        cursor as int
    } else {
        n - 1
    }
}

/// The cursor after the candidate at `index` of `n` was handed out: the
/// next place, or the first one after the last.
pub open spec fn turn_after(index: int, n: nat) -> nat {
    if index + 1 < n {
        (index + 1) as nat
    } else {
        0
    }
}

/// The place of the first least recently used among the first `n`
/// candidates.
pub open spec fn oldest(candidates: Seq<Candidate>, n: nat) -> int
    decreases n,
{
    if n <= 1 {
        0
    } else {
        let best = oldest(candidates, (n - 1) as nat);
        if candidates[n - 1].recency() < candidates[best].recency() {
            n - 1
        } else {
            best
        }
    }
}

/// The sum of the weights of the first `n` candidates.
pub open spec fn weight_sum(candidates: Seq<Candidate>, n: nat) -> nat
    decreases n,
{
    if n == 0 {
        0
    } else {
        weight_sum(candidates, (n - 1) as nat) + candidates[n - 1].weight()
    }
}

/// The place that a ticket falls on when each candidate from `from` on
/// holds as many tickets as its weight, the count starting with `from`; the
/// last candidate takes what is left.
pub open spec fn ticket_holder(candidates: Seq<Candidate>, ticket: int, from: int) -> int
    decreases candidates.len() - from,
{
    if from + 1 >= candidates.len() {
        from
    } else if ticket < candidates[from].weight() {
        from
    } else {
        ticket_holder(candidates, ticket - candidates[from].weight(), from + 1)
    }
}

/// The place that the draw falls on by weight. Where no candidate has any
/// weight, the first one is taken.
pub open spec fn weighted(candidates: Seq<Candidate>, draw: u64) -> int {
    let total = weight_sum(candidates, candidates.len());
    if total == 0 {
        0
    } else {
        ticket_holder(candidates, draw as int % total as int, 0)
    }
}

/// The highest priority among the first `n` candidates.
pub open spec fn top_priority(candidates: Seq<Candidate>, n: nat) -> u32
    decreases n,
{
    if n == 0 {
        0
    } else {
        let rest = top_priority(candidates, (n - 1) as nat);
        if candidates[n - 1].priority > rest {
            candidates[n - 1].priority
        } else {
            rest
        }
    }
}

/// The places, in order, of those among the first `n` candidates that have
/// priority `top`.
pub open spec fn tier(candidates: Seq<Candidate>, top: u32, n: nat) -> Seq<int>
    decreases n,
{
    if n == 0 {
        Seq::<int>::empty()
    } else {
        let rest = tier(candidates, top, (n - 1) as nat);
        if candidates[n - 1].priority == top {
            rest.push(n - 1)
        } else {
            rest
        }
    }
}

/// The places of the candidates of the highest priority.
pub open spec fn top_tier(candidates: Seq<Candidate>) -> Seq<int> {
    tier(candidates, top_priority(candidates, candidates.len()), candidates.len())
}

/// The place of the candidate that `strategy` hands out, for a provider
/// whose cursor stands at `cursor`. There is at least one candidate.
pub open spec fn choice(
    strategy: BalanceStrategy,
    cursor: nat,
    candidates: Seq<Candidate>,
    draw: u64,
) -> int {
    match strategy {
        BalanceStrategy::RoundRobin => turn(cursor, candidates.len()),
        BalanceStrategy::Random => draw as int % candidates.len() as int,
        BalanceStrategy::LeastRecentlyUsed => oldest(candidates, candidates.len()),
        BalanceStrategy::WeightedBySuccessRate => weighted(candidates, draw),
        BalanceStrategy::Priority => top_tier(candidates)[turn(
            cursor,
            top_tier(candidates).len(),
        )],
    }
}

/// Where the cursor of the provider stands after the choice; `None` where
/// the strategy keeps no cursor.
pub open spec fn cursor_after(
    strategy: BalanceStrategy,
    cursor: nat,
    candidates: Seq<Candidate>,
) -> Option<nat> {
    match strategy {
        BalanceStrategy::RoundRobin => Some(
            turn_after(turn(cursor, candidates.len()), candidates.len()),
        ),
        BalanceStrategy::Priority => Some(
            turn_after(
                turn(cursor, top_tier(candidates).len()),
                top_tier(candidates).len(),
            ),
        ),
        _ => None,
    }
}

/// The cursor that `cursors` holds for `provider`; a provider without one
/// starts at the first place.
pub open spec fn cursor_of(cursors: Map<Seq<char>, nat>, provider: Seq<char>) -> nat {
    if cursors.contains_key(provider) {
        cursors[provider]
    } else {
        0
    }
}

/// The cursors after a choice among `candidates` for `provider`.
pub open spec fn cursors_after(
    strategy: BalanceStrategy,
    cursors: Map<Seq<char>, nat>,
    provider: Seq<char>,
    candidates: Seq<Candidate>,
) -> Map<Seq<char>, nat> {
    match cursor_after(strategy, cursor_of(cursors, provider), candidates) {
        Some(next) => cursors.insert(provider, next),
        None => cursors,
    }
}

/// The first least recently used candidate was used no later than any
/// other, and earlier than all that come before it.
pub proof fn lemma_oldest(candidates: Seq<Candidate>, n: nat)
    requires
        1 <= n <= candidates.len(),
    ensures
        0 <= oldest(candidates, n) < n,
        forall|j: int|
            0 <= j < n ==> candidates[oldest(candidates, n)].recency()
                <= #[trigger] candidates[j].recency(),
        forall|j: int|
            0 <= j < oldest(candidates, n) ==> candidates[oldest(candidates, n)].recency()
                < #[trigger] candidates[j].recency(),
    decreases n,
{
    if n > 1 {
        lemma_oldest(candidates, (n - 1) as nat);
    }
}

/// The highest priority is that of some candidate, and no candidate has a
/// higher one.
pub proof fn lemma_top_priority(candidates: Seq<Candidate>, n: nat)
    requires
        1 <= n <= candidates.len(),
    ensures
        forall|j: int|
            0 <= j < n ==> (#[trigger] candidates[j]).priority <= top_priority(candidates, n),
        exists|j: int|
            0 <= j < n && (#[trigger] candidates[j]).priority == top_priority(candidates, n),
    decreases n,
{
    if n > 1 {
        lemma_top_priority(candidates, (n - 1) as nat);
        let j = choose|j: int|
            0 <= j < n - 1 && (#[trigger] candidates[j]).priority == top_priority(
                candidates,
                (n - 1) as nat,
            );
        if candidates[n - 1].priority > top_priority(candidates, (n - 1) as nat) {
            assert(candidates[n - 1].priority == top_priority(candidates, n));
        } else {
            assert(candidates[j].priority == top_priority(candidates, n));
        }
    } else {
        reveal_with_fuel(top_priority, 2);
        assert(candidates[0].priority == top_priority(candidates, n));
    }
}

/// A tier holds, in ascending order, exactly the places of the candidates
/// of its priority.
pub proof fn lemma_tier(candidates: Seq<Candidate>, top: u32, n: nat)
    requires
        n <= candidates.len(),
    ensures
        tier(candidates, top, n).len() <= n,
        forall|k: int|
            0 <= k < tier(candidates, top, n).len() ==> {
                &&& 0 <= (#[trigger] tier(candidates, top, n)[k]) < n
                &&& candidates[tier(candidates, top, n)[k]].priority == top
            },
        forall|k: int, l: int|
            0 <= k < l < tier(candidates, top, n).len() ==> (#[trigger] tier(
                candidates,
                top,
                n,
            )[k]) < (#[trigger] tier(candidates, top, n)[l]),
        forall|j: int|
            0 <= j < n && (#[trigger] candidates[j]).priority == top ==> tier(
                candidates,
                top,
                n,
            ).contains(j),
    decreases n,
{
    if n > 0 {
        let rest = tier(candidates, top, (n - 1) as nat);
        lemma_tier(candidates, top, (n - 1) as nat);
        let all = tier(candidates, top, n);
        assert forall|j: int| 0 <= j < n && (#[trigger] candidates[j]).priority == top implies all.contains(
            j,
        ) by {
            if j < n - 1 {
                assert(rest.contains(j));
                let k = choose|k: int| 0 <= k < rest.len() && rest[k] == j;
                assert(all[k] == j);
            } else {
                assert(all[all.len() - 1] == j);
            }
        }
    }
}

/// The tier of the highest priority is not empty.
pub proof fn lemma_top_tier_nonempty(candidates: Seq<Candidate>)
    requires
        candidates.len() > 0,
    ensures
        top_tier(candidates).len() > 0,
{
    lemma_top_priority(candidates, candidates.len());
    lemma_tier(candidates, top_priority(candidates, candidates.len()), candidates.len());
    let j = choose|j: int|
        0 <= j < candidates.len() && (#[trigger] candidates[j]).priority == top_priority(
            candidates,
            candidates.len(),
        );
    assert(top_tier(candidates).contains(j));
}

/// Computes [`turn`].
fn take_turn(cursor: usize, n: usize) -> (r: usize)
    requires
        n > 0,
    ensures
        r == turn(cursor as nat, n as nat),
        r < n,
{
    if cursor < n {
        cursor
    } else {
        n - 1
    }
}

/// Computes [`turn_after`].
fn advance_turn(index: usize, n: usize) -> (r: usize)
    requires
        index < n,
    ensures
        r == turn_after(index as int, n as nat),
        r < n,
{
    if index + 1 < n {
        index + 1
    } else {
        0
    }
}

/// The place of the first least recently used candidate.
fn pick_oldest(candidates: &Vec<Candidate>) -> (r: usize)
    requires
        candidates.len() > 0,
    ensures
        r == oldest(candidates@, candidates@.len()),
        r < candidates.len(),
{
    let mut best: usize = 0;
    let mut i: usize = 1;
    while i < candidates.len()
        invariant
            1 <= i <= candidates.len(),
            best < i,
            best == oldest(candidates@, i as nat),
        decreases candidates.len() - i,
    {
        let earlier: bool = match (candidates[i].last_used_at, candidates[best].last_used_at) {
            (None, None) => false,
            (None, Some(_)) => true,
            (Some(_), None) => false,
            (Some(a), Some(b)) => a < b,
        };
        if earlier {
            best = i;
        }
        i = i + 1;
    }
    best
}

/// The place that the draw falls on by weight.
fn pick_weighted(candidates: &Vec<Candidate>, draw: u64) -> (r: usize)
    requires
        candidates.len() > 0,
    ensures
        r == weighted(candidates@, draw),
        r < candidates.len(),
{
    let n: usize = candidates.len();
    let mut total: u128 = 0;
    let mut i: usize = 0;
    while i < n
        invariant
            i <= n,
            n == candidates.len(),
            total == weight_sum(candidates@, i as nat),
            total <= i * WEIGHT_SCALE,
        decreases n - i,
    {
        let w: u128 = candidates[i].weigh();
        total = total + w;
        i = i + 1;
    }
    if total == 0 {
        return 0;
    }
    let mut left: u128 = (draw as u128) % total;
    let ghost ticket: int = left as int;
    let mut at: usize = 0;
    while at + 1 < n
        invariant
            at < n,
            n == candidates.len(),
            total > 0,
            total == weight_sum(candidates@, n as nat),
            ticket == draw as int % total as int,
            ticket_holder(candidates@, ticket, 0) == ticket_holder(candidates@, left as int, at as int),
        decreases n - at,
    {
        let w: u128 = candidates[at].weigh();
        if left < w {
            return at;
        }
        left = left - w;
        at = at + 1;
    }
    at
}

/// The places of the candidates of the highest priority, in order.
fn collect_top_tier(candidates: &Vec<Candidate>) -> (r: Vec<usize>)
    requires
        candidates.len() > 0,
    ensures
        r@.len() == top_tier(candidates@).len(),
        r@.len() > 0,
        forall|k: int| 0 <= k < r@.len() ==> r@[k] == top_tier(candidates@)[k],
        forall|k: int| 0 <= k < r@.len() ==> r@[k] < candidates.len(),
{
    let n: usize = candidates.len();
    let mut top: u32 = 0;
    let mut i: usize = 0;
    while i < n
        invariant
            i <= n,
            n == candidates.len(),
            top == top_priority(candidates@, i as nat),
        decreases n - i,
    {
        if candidates[i].priority > top {
            top = candidates[i].priority;
        }
        i = i + 1;
    }
    let mut places: Vec<usize> = Vec::new();
    let mut j: usize = 0;
    while j < n
        invariant
            j <= n,
            n == candidates.len(),
            places@.len() == tier(candidates@, top, j as nat).len(),
            forall|k: int| 0 <= k < places@.len() ==> places@[k] == tier(candidates@, top, j as nat)[k],
            forall|k: int| 0 <= k < places@.len() ==> places@[k] < j,
        decreases n - j,
    {
        if candidates[j].priority == top {
            places.push(j);
        }
        j = j + 1;
    }
    proof {
        lemma_top_tier_nonempty(candidates@);
    }
    places
}

/// The cursor kept for one provider.
struct CursorEntry {
    provider: String,
    next: usize,
}

/// The load balancer: a strategy, and for each provider that was served in
/// turns the place where its next turn starts.
pub struct LoadBalancer {
    strategy: BalanceStrategy,
    entries: Vec<CursorEntry>,
}

impl LoadBalancer {
    /// The strategy in use.
    pub closed spec fn spec_strategy(&self) -> BalanceStrategy {
        self.strategy
    }

    /// The cursor entry at `i` is the one kept for `provider`.
    spec fn entry_for(&self, provider: Seq<char>, i: int) -> bool {
        0 <= i < self.entries@.len() && self.entries@[i].provider@ == provider
    }

    /// The cursors by provider.
    pub closed spec fn cursors(&self) -> Map<Seq<char>, nat> {
        Map::new(
            |p: Seq<char>| exists|i: int| self.entry_for(p, i),
            |p: Seq<char>| self.entries@[choose|i: int| self.entry_for(p, i)].next as nat,
        )
    }

    /// No provider has two cursors.
    pub closed spec fn wf(&self) -> bool {
        forall|i: int, j: int|
            0 <= i < j < self.entries@.len() ==> self.entries@[i].provider@
                != self.entries@[j].provider@
    }

    /// A balancer that follows `strategy`, with every cursor at the start.
    pub fn new(strategy: BalanceStrategy) -> (r: LoadBalancer)
        ensures
            r.wf(),
            r.strategy() == strategy,
            r.cursors() == Map::<Seq<char>, nat>::empty(),
    {
        let r = LoadBalancer { strategy, entries: Vec::new() };
        assert(r.cursors() =~= Map::<Seq<char>, nat>::empty());
        r
    }

    /// The strategy in use.
    #[verifier::when_used_as_spec(spec_strategy)]
    pub fn strategy(&self) -> (r: BalanceStrategy)
        ensures
            r == self.strategy(),
    {
        self.strategy
    }

    /// Changes the strategy. The cursors stay where they are.
    pub fn set_strategy(&mut self, strategy: BalanceStrategy)
        requires
            old(self).wf(),
        ensures
            final(self).wf(),
            final(self).strategy() == strategy,
            final(self).cursors() == old(self).cursors(),
    {
        self.strategy = strategy;
        assert(forall|p: Seq<char>, i: int| self.entry_for(p, i) == old(self).entry_for(p, i));
        assert(self.cursors() =~= old(self).cursors());
    }

    /// Where the entry of `provider` lies, if it has one.
    fn find(&self, provider: &String) -> (r: Option<usize>)
        requires
            self.wf(),
        ensures
            match r {
                Some(i) => self.entry_for(provider@, i as int),
                None => forall|i: int| !self.entry_for(provider@, i),
            },
    {
        let mut i: usize = 0;
        while i < self.entries.len()
            invariant
                i <= self.entries.len(),
                forall|k: int| 0 <= k < i ==> self.entries@[k].provider@ != provider@,
            decreases self.entries.len() - i,
        {
            if self.entries[i].provider == *provider {
                return Some(i);
            }
            i = i + 1;
        }
        None
    }

    /// The cursor of `provider`.
    pub fn cursor(&self, provider: &String) -> (r: usize)
        requires
            self.wf(),
        ensures
            r == cursor_of(self.cursors(), provider@),
    {
        match self.find(provider) {
            Some(i) => {
                assert(self.entry_for(provider@, i as int));
                self.entries[i].next
            },
            None => 0,
        }
    }

    /// Moves the cursor of `provider` to `next`.
    pub fn set_cursor(&mut self, provider: &String, next: usize)
        requires
            old(self).wf(),
        ensures
            final(self).wf(),
            final(self).strategy() == old(self).strategy(),
            final(self).cursors() == old(self).cursors().insert(provider@, next as nat),
    {
        match self.find(provider) {
            Some(i) => {
                self.entries[i].next = next;
                assert(self.entry_for(provider@, i as int));
                assert(forall|k: int|
                    0 <= k < self.entries@.len() ==> self.entries@[k].provider@ == old(
                        self,
                    ).entries@[k].provider@);
                assert(self.wf());
                assert(forall|p: Seq<char>, k: int| self.entry_for(p, k) == old(self).entry_for(p, k));
            },
            None => {
                self.entries.push(CursorEntry { provider: provider.clone(), next });
                let ghost last = old(self).entries@.len() as int;
                assert(self.entry_for(provider@, last));
                assert(forall|k: int| 0 <= k < last ==> self.entries@[k] == old(self).entries@[k]);
                assert forall|k: int| 0 <= k < last implies (#[trigger] self.entries@[k]).provider@
                    != provider@ by {
                    assert(!old(self).entry_for(provider@, k));
                }
                assert(self.entries@[last].provider@ == provider@);
                assert(self.wf());
                assert(forall|p: Seq<char>, k: int|
                    self.entry_for(p, k) == (old(self).entry_for(p, k) || (k == last && p
                        == provider@)));
            },
        }
        assert(self.cursors() =~= old(self).cursors().insert(provider@, next as nat));
    }

    /// Hands out the place of one of `candidates` for `provider`, or `None`
    /// where there is no candidate. The candidates are those that may be
    /// used right now, in ascending order of id.
    pub fn select(&mut self, provider: &String, candidates: &Vec<Candidate>, draw: u64) -> (r:
        Option<usize>)
        requires
            old(self).wf(),
        ensures
            final(self).wf(),
            final(self).strategy() == old(self).strategy(),
            match r {
                None => candidates@.len() == 0 && final(self).cursors() == old(self).cursors(),
                Some(k) => {
                    &&& candidates@.len() > 0
                    &&& k < candidates@.len()
                    &&& k == choice(
                        old(self).strategy(),
                        cursor_of(old(self).cursors(), provider@),
                        candidates@,
                        draw,
                    )
                    &&& final(self).cursors() == cursors_after(
                        old(self).strategy(),
                        old(self).cursors(),
                        provider@,
                        candidates@,
                    )
                },
            },
    {
        let n: usize = candidates.len();
        if n == 0 {
            return None;
        }
        match self.strategy {
            BalanceStrategy::RoundRobin => {
                let k: usize = take_turn(self.cursor(provider), n);
                self.set_cursor(provider, advance_turn(k, n));
                Some(k)
            },
            BalanceStrategy::Random => Some((draw % (n as u64)) as usize),
            BalanceStrategy::LeastRecentlyUsed => Some(pick_oldest(candidates)),
            BalanceStrategy::WeightedBySuccessRate => Some(pick_weighted(candidates, draw)),
            BalanceStrategy::Priority => {
                let places: Vec<usize> = collect_top_tier(candidates);
                let k: usize = take_turn(self.cursor(provider), places.len());
                self.set_cursor(provider, advance_turn(k, places.len()));
                Some(places[k])
            },
        }
    }
}

/// A ticket falls on a place from `from` on.
pub proof fn lemma_ticket_holder_bounds(candidates: Seq<Candidate>, ticket: int, from: int)
    requires
        0 <= from < candidates.len(),
    ensures
        from <= ticket_holder(candidates, ticket, from) < candidates.len(),
    decreases candidates.len() - from,
{
    if from + 1 < candidates.len() && ticket >= candidates[from].weight() {
        lemma_ticket_holder_bounds(candidates, ticket - candidates[from].weight(), from + 1);
    }
}

/// Each candidate holds as many tickets as its weight: counted from
/// `from`, the tickets from the sum of the weights before a place up to
/// the sum that includes it fall on that place.
pub proof fn lemma_ticket_holder_share(
    candidates: Seq<Candidate>,
    ticket: int,
    from: int,
    place: int,
)
    requires
        0 <= from <= place < candidates.len(),
        weight_sum(candidates, place as nat) - weight_sum(candidates, from as nat) <= ticket
            < weight_sum(candidates, (place + 1) as nat) - weight_sum(candidates, from as nat),
    ensures
        ticket_holder(candidates, ticket, from) == place,
    decreases place - from,
{
    if from < place {
        assert(weight_sum(candidates, (from + 1) as nat) == weight_sum(candidates, from as nat)
            + candidates[from].weight());
        lemma_weight_sum_grows(candidates, (from + 1) as nat, place as nat);
        lemma_ticket_holder_share(
            candidates,
            ticket - candidates[from].weight(),
            from + 1,
            place,
        );
    }
}

/// The sum of the weights grows with the number of candidates counted.
pub proof fn lemma_weight_sum_grows(candidates: Seq<Candidate>, m: nat, n: nat)
    requires
        m <= n,
    ensures
        weight_sum(candidates, m) <= weight_sum(candidates, n),
    decreases n - m,
{
    if m < n {
        lemma_weight_sum_grows(candidates, m, (n - 1) as nat);
    }
}

/// Drawing by weight gives each candidate its share: a draw whose ticket
/// lies from the sum of the weights before a place up to the sum that
/// includes it falls on that place. So of all tickets, as many fall on a
/// candidate as its weight counts.
pub proof fn lemma_weighted_share(candidates: Seq<Candidate>, draw: u64, place: int)
    requires
        0 <= place < candidates.len(),
        weight_sum(candidates, candidates.len()) > 0,
        weight_sum(candidates, place as nat) <= (draw as int) % (weight_sum(
            candidates,
            candidates.len(),
        ) as int),
        (draw as int) % (weight_sum(candidates, candidates.len()) as int) < weight_sum(
            candidates,
            (place + 1) as nat,
        ),
    ensures
        weighted(candidates, draw) == place,
{
    let total = weight_sum(candidates, candidates.len());
    assert(weight_sum(candidates, 0) == 0);
    lemma_ticket_holder_share(candidates, draw as int % total as int, 0, place);
}

/// Where there is a candidate, the place chosen is the place of one.
pub proof fn lemma_choice_in_range(
    strategy: BalanceStrategy,
    cursor: nat,
    candidates: Seq<Candidate>,
    draw: u64,
)
    requires
        candidates.len() > 0,
    ensures
        0 <= choice(strategy, cursor, candidates, draw) < candidates.len(),
{
    match strategy {
        BalanceStrategy::RoundRobin => {},
        BalanceStrategy::Random => {
            vstd::arithmetic::div_mod::lemma_mod_bound(draw as int, candidates.len() as int);
        },
        BalanceStrategy::LeastRecentlyUsed => {
            lemma_oldest(candidates, candidates.len());
        },
        BalanceStrategy::WeightedBySuccessRate => {
            let total = weight_sum(candidates, candidates.len());
            if total > 0 {
                lemma_ticket_holder_bounds(candidates, draw as int % total as int, 0);
            }
        },
        BalanceStrategy::Priority => {
            lemma_top_tier_nonempty(candidates);
            lemma_tier(candidates, top_priority(candidates, candidates.len()), candidates.len());
        },
    }
}

/// The cursor after `rounds` turns among `n` candidates.
pub open spec fn cursor_after_rounds(cursor: nat, n: nat, rounds: nat) -> nat
    decreases rounds,
{
    if rounds == 0 {
        cursor
    } else {
        turn_after(turn(cursor_after_rounds(cursor, n, (rounds - 1) as nat), n), n)
    }
}

/// Round robin goes round: among `n` candidates that stay the same, the
/// turn after `rounds` turns is `rounds` places further on, counted in a
/// circle. From the first place, the turns are 0, 1, .., n - 1, 0, 1, ..
pub proof fn lemma_round_robin_cycles(cursor: nat, n: nat, rounds: nat)
    requires
        n > 0,
    ensures
        turn(cursor_after_rounds(cursor, n, rounds), n) == (turn(cursor, n) + rounds) % (n as int),
    decreases rounds,
{
    let start = turn(cursor, n);
    if rounds == 0 {
        vstd::arithmetic::div_mod::lemma_small_mod(start as nat, n);
    } else {
        lemma_round_robin_cycles(cursor, n, (rounds - 1) as nat);
        let before = turn(cursor_after_rounds(cursor, n, (rounds - 1) as nat), n);
        assert(before == (start + rounds - 1) % (n as int));
        vstd::arithmetic::div_mod::lemma_mod_bound(start + rounds - 1, n as int);
        if before + 1 < n {
            vstd::arithmetic::div_mod::lemma_small_mod((before + 1) as nat, n);
            vstd::arithmetic::div_mod::lemma_add_mod_noop(start + rounds - 1, 1, n as int);
            vstd::arithmetic::div_mod::lemma_small_mod(1, n);
        } else {
            vstd::arithmetic::div_mod::lemma_add_mod_noop(start + rounds - 1, 1, n as int);
            if n == 1 {
                assert((1int % 1) == 0);
            } else {
                vstd::arithmetic::div_mod::lemma_small_mod(1, n);
            }
            vstd::arithmetic::div_mod::lemma_mod_self_0(n as int);
        }
    }
}

} // verus!
