//! What the pool reports about itself: how many credentials of each
//! provider are in rotation, cooling down or disabled at a given moment,
//! and how long a cooldown has left.

use vstd::prelude::*;
use crate::credential::registry::{of_provider, CredentialRegistry};
use crate::credential::types::{Credential, CredentialStatus, CredentialView, StatusView};

verus! {

/// How long a credential stays out of rotation.
#[derive(Clone, Copy, Debug, PartialEq, Eq)]
pub struct CooldownInfo {
    pub credential_id: u64,
    pub remaining: u64,
}

/// What is left of the cooldown of `c` at `now`, if it is in one.
pub open spec fn cooldown_of(c: CredentialView, now: u64) -> Option<CooldownInfo> {
    match c.status {
        StatusView::Cooldown { until } => if now < until {
            Some(CooldownInfo { credential_id: c.id, remaining: (until - now) as u64 })
        } else {
            None
        },
        _ => None,
    }
}

/// Computes [`cooldown_of`]. Nothing is stored for this: the status and the
/// clock say it all.
pub fn cooldown_info(credential: &Credential, now: u64) -> (r: Option<CooldownInfo>)
    ensures
        r == cooldown_of(credential@, now),
{
    match &credential.status {
        CredentialStatus::Cooldown { until } => {
            if now < *until {
                Some(CooldownInfo { credential_id: credential.id, remaining: *until - now })
            } else {
                None
            }
        },
        _ => None,
    }
}

/// The credentials of one provider, counted by where they stand.
#[derive(Debug, PartialEq, Eq)]
pub struct ProviderStatus {
    pub provider: String,
    /// In rotation: active, or in a cooldown that has run out.
    pub active: usize,
    /// In a cooldown that has not run out.
    pub cooldown: usize,
    /// Disabled.
    pub disabled: usize,
}

/// The view of a [`ProviderStatus`].
pub struct ProviderStatusView {
    pub provider: Seq<char>,
    pub active: nat,
    pub cooldown: nat,
    pub disabled: nat,
}

impl View for ProviderStatus {
    type V = ProviderStatusView;

    open spec fn view(&self) -> ProviderStatusView {
        ProviderStatusView {
            provider: self.provider@,
            active: self.active as nat,
            cooldown: self.cooldown as nat,
            disabled: self.disabled as nat,
        }
    }
}

/// The counts for each provider that was asked about.
#[derive(Debug, PartialEq, Eq)]
pub struct PoolStatus {
    pub providers: Vec<ProviderStatus>,
}

impl View for PoolStatus {
    type V = Seq<ProviderStatusView>;

    open spec fn view(&self) -> Seq<ProviderStatusView> {
        Seq::new(self.providers@.len(), |i: int| self.providers@[i]@)
    }
}

/// The counts for `provider` over the first `n` credentials, as they stand
/// at `now`.
pub open spec fn tally(
    credentials: Seq<CredentialView>,
    provider: Seq<char>,
    now: u64,
    n: nat,
) -> ProviderStatusView
    decreases n,
{
    if n == 0 {
        ProviderStatusView { provider, active: 0, cooldown: 0, disabled: 0 }
    } else {
        let rest = tally(credentials, provider, now, (n - 1) as nat);
        let c = credentials[n - 1];
        if c.provider != provider {
            rest
        } else if c.status.eligible_at(now) {
            ProviderStatusView { active: rest.active + 1, ..rest }
        } else if c.status is Disabled {
            ProviderStatusView { disabled: rest.disabled + 1, ..rest }
        } else {
            ProviderStatusView { cooldown: rest.cooldown + 1, ..rest }
        }
    }
}

/// The providers of the first `n` credentials, each once, in the order in
/// which they first occur.
pub open spec fn providers_seen(credentials: Seq<CredentialView>, n: nat) -> Seq<Seq<char>>
    decreases n,
{
    if n == 0 {
        Seq::<Seq<char>>::empty()
    } else {
        let rest = providers_seen(credentials, (n - 1) as nat);
        if rest.contains(credentials[n - 1].provider) {
            rest
        } else {
            rest.push(credentials[n - 1].provider)
        }
    }
}

/// The summary at `now`: the counts for the one provider that was asked
/// about, or for each provider that has a credential.
pub open spec fn summary(
    credentials: Seq<CredentialView>,
    provider: Option<Seq<char>>,
    now: u64,
) -> Seq<ProviderStatusView> {
    match provider {
        Some(p) => seq![tally(credentials, p, now, credentials.len())],
        None => {
            let seen = providers_seen(credentials, credentials.len());
            Seq::new(seen.len(), |k: int| tally(credentials, seen[k], now, credentials.len()))
        },
    }
}

/// The three counts of a provider add up to the number of its credentials.
pub proof fn lemma_tally_adds_up(
    credentials: Seq<CredentialView>,
    provider: Seq<char>,
    now: u64,
    n: nat,
)
    requires
        n <= credentials.len(),
    ensures
        tally(credentials, provider, now, n).provider == provider,
        tally(credentials, provider, now, n).active + tally(credentials, provider, now, n).cooldown
            + tally(credentials, provider, now, n).disabled == of_provider(
            credentials.take(n as int),
            provider,
        ).len(),
    decreases n,
{
    reveal(Seq::filter);
    if n > 0 {
        lemma_tally_adds_up(credentials, provider, now, (n - 1) as nat);
        assert(credentials.take(n as int).drop_last() =~= credentials.take(n - 1));
        assert(credentials.take(n as int).last() == credentials[n - 1]);
    } else {
        assert(credentials.take(0) =~= Seq::<CredentialView>::empty());
    }
}

/// In every line of a summary the three counts add up to the number of
/// credentials that the provider of the line has.
pub proof fn lemma_summary_adds_up(
    credentials: Seq<CredentialView>,
    provider: Option<Seq<char>>,
    now: u64,
)
    ensures
        forall|k: int|
            0 <= k < summary(credentials, provider, now).len() ==> {
                let line = #[trigger] summary(credentials, provider, now)[k];
                line.active + line.cooldown + line.disabled == of_provider(
                    credentials,
                    line.provider,
                ).len()
            },
{
    assert(credentials.take(credentials.len() as int) =~= credentials);
    assert forall|k: int| 0 <= k < summary(credentials, provider, now).len() implies {
        let line = #[trigger] summary(credentials, provider, now)[k];
        line.active + line.cooldown + line.disabled == of_provider(
            credentials,
            line.provider,
        ).len()
    } by {
        match provider {
            Some(p) => {
                lemma_tally_adds_up(credentials, p, now, credentials.len());
            },
            None => {
                let seen = providers_seen(credentials, credentials.len());
                lemma_tally_adds_up(credentials, seen[k], now, credentials.len());
            },
        }
    }
}

/// One of the first `n` credentials belongs to `provider`.
pub open spec fn occurs(credentials: Seq<CredentialView>, provider: Seq<char>, n: nat) -> bool {
    exists|j: int| 0 <= j < n && (#[trigger] credentials[j]).provider == provider
}

/// A provider is seen exactly if one of the credentials has it, and no
/// provider is seen twice.
pub proof fn lemma_providers_seen(credentials: Seq<CredentialView>, n: nat)
    requires
        n <= credentials.len(),
    ensures
        forall|j: int|
            0 <= j < n ==> providers_seen(credentials, n).contains(
                (#[trigger] credentials[j]).provider,
            ),
        forall|k: int|
            0 <= k < providers_seen(credentials, n).len() ==> occurs(
                credentials,
                #[trigger] providers_seen(credentials, n)[k],
                n,
            ),
        providers_seen(credentials, n).no_duplicates(),
    decreases n,
{
    if n > 0 {
        let rest = providers_seen(credentials, (n - 1) as nat);
        let all = providers_seen(credentials, n);
        let last = credentials[n - 1].provider;
        lemma_providers_seen(credentials, (n - 1) as nat);
        assert forall|j: int| 0 <= j < n implies all.contains(
            (#[trigger] credentials[j]).provider,
        ) by {
            if j < n - 1 {
                assert(rest.contains(credentials[j].provider));
                let k = choose|k: int| 0 <= k < rest.len() && rest[k] == credentials[j].provider;
                assert(all[k] == credentials[j].provider);
            } else if rest.contains(last) {
            } else {
                assert(all[all.len() - 1] == last);
            }
        }
        assert forall|k: int| 0 <= k < all.len() implies occurs(
            credentials,
            #[trigger] all[k],
            n,
        ) by {
            if k < rest.len() {
                assert(occurs(credentials, rest[k], (n - 1) as nat));
                let j = choose|j: int|
                    0 <= j < n - 1 && (#[trigger] credentials[j]).provider == rest[k];
                assert(credentials[j].provider == all[k]);
            } else {
                assert(credentials[n - 1].provider == all[k]);
            }
        }
    }
}

/// Counts the credentials of `provider` by where they stand at `now`.
pub fn tally_provider(registry: &CredentialRegistry, provider: &String, now: u64) -> (r:
    ProviderStatus)
    ensures
        r@ == tally(registry@, provider@, now, registry@.len()),
        r.provider@ == provider@,
{
    let n: usize = registry.len();
    let mut active: usize = 0;
    let mut cooldown: usize = 0;
    let mut disabled: usize = 0;
    let mut i: usize = 0;
    while i < n
        invariant
            i <= n,
            n == registry@.len(),
            active + cooldown + disabled <= i,
            tally(registry@, provider@, now, i as nat) == (ProviderStatusView {
                provider: provider@,
                active: active as nat,
                cooldown: cooldown as nat,
                disabled: disabled as nat,
            }),
        decreases n - i,
    {
        let c: &Credential = registry.at(i);
        if c.provider == *provider {
            if c.status.is_eligible(now) {
                active = active + 1;
            } else if c.status.is_disabled() {
                disabled = disabled + 1;
            } else {
                cooldown = cooldown + 1;
            }
        }
        i = i + 1;
    }
    ProviderStatus { provider: provider.clone(), active, cooldown, disabled }
}

/// Computes [`summary`] over the credentials of `registry`.
pub fn summarize(registry: &CredentialRegistry, provider: Option<&str>, now: u64) -> (r:
    PoolStatus)
    ensures
        r@ == summary(
            registry@,
            match provider {
                Some(p) => Some(p@),
                None => None,
            },
            now,
        ),
        forall|k: int|
            0 <= k < r@.len() ==> (#[trigger] r@[k]).active + r@[k].cooldown + r@[k].disabled
                == of_provider(registry@, r@[k].provider).len(),
{
    let mut lines: Vec<ProviderStatus> = Vec::new();
    match provider {
        Some(p) => {
            let wanted: String = p.to_owned();
            lines.push(tally_provider(registry, &wanted, now));
        },
        None => {
            let n: usize = registry.len();
            let mut i: usize = 0;
            while i < n
                invariant
                    i <= n,
                    n == registry@.len(),
                    lines@.len() == providers_seen(registry@, i as nat).len(),
                    forall|k: int|
                        0 <= k < lines@.len() ==> (#[trigger] lines@[k])@.provider
                            == providers_seen(registry@, i as nat)[k],
                    forall|k: int|
                        0 <= k < lines@.len() ==> (#[trigger] lines@[k])@ == tally(
                            registry@,
                            providers_seen(registry@, i as nat)[k],
                            now,
                            n as nat,
                        ),
                decreases n - i,
            {
                let c: &Credential = registry.at(i);
                let ghost seen = providers_seen(registry@, i as nat);
                let mut known: bool = false;
                let mut k: usize = 0;
                while k < lines.len()
                    invariant
                        k <= lines@.len(),
                        n == registry@.len(),
                        lines@.len() == seen.len(),
                        forall|j: int|
                            0 <= j < lines@.len() ==> (#[trigger] lines@[j])@.provider == seen[j],
                        known <==> exists|j: int| 0 <= j < k && seen[j] == c@.provider,
                    decreases lines@.len() - k,
                {
                    if lines[k].provider == c.provider {
                        known = true;
                        assert(seen[k as int] == c@.provider);
                    }
                    k = k + 1;
                }
                if !known {
                    lines.push(tally_provider(registry, &c.provider, now));
                }
                i = i + 1;
            }
        },
    }
    let r = PoolStatus { providers: lines };
    proof {
        let wanted: Option<Seq<char>> = match provider {
            Some(p) => Some(p@),
            None => None,
        };
        assert(r@ =~= summary(registry@, wanted, now));
        lemma_summary_adds_up(registry@, wanted, now);
    }
    r
}

} // verus!
