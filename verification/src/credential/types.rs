//! The data held for each credential, and the mathematical view of it that
//! the contracts of the pool speak about.

use vstd::prelude::*;
use crate::credential::pool::PoolError;

verus! {

/// The view of an optional string.
pub open spec fn text_opt(o: Option<String>) -> Option<Seq<char>> {
    match o {
        Some(s) => Some(s@),
        None => None,
    }
}

/// The view of a list of strings: the list of their views.
pub open spec fn texts(items: Seq<String>) -> Seq<Seq<char>> {
    Seq::new(items.len(), |i: int| items[i]@)
}

/// One more, unless the counter is already at its largest value.
pub open spec fn bump64(x: u64) -> u64 {
    if x < u64::MAX {
        (x + 1) as u64
    } else {
        x
    }
}

/// One more, unless the counter is already at its largest value.
pub open spec fn bump32(x: u32) -> u32 {
    if x < u32::MAX {
        (x + 1) as u32
    } else {
        x
    }
}

/// Copies a list of strings.
pub fn copy_texts(items: &Vec<String>) -> (r: Vec<String>)
    ensures
        texts(r@) == texts(items@),
{
    let mut out: Vec<String> = Vec::new();
    let mut i: usize = 0;
    while i < items.len()
        invariant
            i <= items.len(),
            out.len() == i,
            forall|k: int| 0 <= k < i ==> out[k]@ == items[k]@,
        decreases items.len() - i,
    {
        out.push(items[i].clone());
        i = i + 1;
    }
    assert(texts(out@) =~= texts(items@));
    out
}

/// Copies an optional string.
pub fn copy_text_opt(o: &Option<String>) -> (r: Option<String>)
    ensures
        text_opt(r) == text_opt(*o),
{
    match o {
        Some(s) => Some(s.clone()),
        None => None,
    }
}

/// The secret material of a credential. The variant is fixed when the
/// credential is created.
#[derive(Debug, PartialEq, Eq)]
pub enum CredentialData {
    /// A static API key.
    ApiKey { secret: String },
    /// An OAuth-style token kept in a file, with the project it belongs to
    /// where that is known.
    OAuth { token_file: String, project_id: Option<String> },
}

/// The view of [`CredentialData`].
pub enum CredentialDataView {
    ApiKey { secret: Seq<char> },
    OAuth { token_file: Seq<char>, project_id: Option<Seq<char>> },
}

impl View for CredentialData {
    type V = CredentialDataView;

    open spec fn view(&self) -> CredentialDataView {
        match *self {
            CredentialData::ApiKey { secret } => CredentialDataView::ApiKey { secret: secret@ },
            CredentialData::OAuth { token_file, project_id } => CredentialDataView::OAuth {
                token_file: token_file@,
                project_id: text_opt(project_id),
            },
        }
    }
}

impl Clone for CredentialData {
    fn clone(&self) -> (r: CredentialData)
        ensures
            r@ == self@,
    {
        match self {
            CredentialData::ApiKey { secret } => CredentialData::ApiKey { secret: secret.clone() },
            CredentialData::OAuth { token_file, project_id } => CredentialData::OAuth {
                token_file: token_file.clone(),
                project_id: copy_text_opt(project_id),
            },
        }
    }
}

/// Whether a credential may be handed out.
#[derive(Debug, PartialEq, Eq)]
pub enum CredentialStatus {
    /// In rotation.
    Active,
    /// Out of rotation until the clock reaches `until`.
    Cooldown { until: u64 },
    /// Out of rotation until an operator re-enables it.
    Disabled { reason: String },
}

/// The view of [`CredentialStatus`].
pub enum StatusView {
    Active,
    Cooldown { until: u64 },
    Disabled { reason: Seq<char> },
}

impl View for CredentialStatus {
    type V = StatusView;

    open spec fn view(&self) -> StatusView {
        match *self {
            CredentialStatus::Active => StatusView::Active,
            CredentialStatus::Cooldown { until } => StatusView::Cooldown { until },
            CredentialStatus::Disabled { reason } => StatusView::Disabled { reason: reason@ },
        }
    }
}

impl Clone for CredentialStatus {
    fn clone(&self) -> (r: CredentialStatus)
        ensures
            r@ == self@,
    {
        match self {
            CredentialStatus::Active => CredentialStatus::Active,
            CredentialStatus::Cooldown { until } => CredentialStatus::Cooldown { until: *until },
            CredentialStatus::Disabled { reason } => CredentialStatus::Disabled {
                reason: reason.clone(),
            },
        }
    }
}

impl StatusView {
    /// A credential may be selected at `now` when it is active, or when its
    /// cooldown has run out. Nothing has to happen for a cooldown to end:
    /// the comparison with the clock is all there is.
    pub open spec fn eligible_at(self, now: u64) -> bool {
        match self {
            StatusView::Active => true,
            StatusView::Cooldown { until } => now >= until,
            StatusView::Disabled { .. } => false,
        }
    }

    /// The credential is waiting for its cooldown to run out at `now`.
    pub open spec fn cooling_at(self, now: u64) -> bool {
        self matches StatusView::Cooldown { until } && now < until
    }
}

impl CredentialStatus {
    /// Whether a credential in this status may be selected at `now`.
    pub fn is_eligible(&self, now: u64) -> (r: bool)
        ensures
            r == self@.eligible_at(now),
    {
        match self {
            CredentialStatus::Active => true,
            CredentialStatus::Cooldown { until } => now >= *until,
            CredentialStatus::Disabled { .. } => false,
        }
    }

    /// Whether a credential in this status is still cooling down at `now`.
    pub fn is_cooling(&self, now: u64) -> (r: bool)
        ensures
            r == self@.cooling_at(now),
    {
        match self {
            CredentialStatus::Cooldown { until } => now < *until,
            _ => false,
        }
    }

    /// Whether the credential has been disabled.
    pub fn is_disabled(&self) -> (r: bool)
        ensures
            r == (self@ is Disabled),
    {
        match self {
            CredentialStatus::Disabled { .. } => true,
            _ => false,
        }
    }
}

/// Usage counters of a credential. All of them only grow, except
/// `consecutive_failures`, which a success resets to zero. A counter that
/// has reached the largest value of its type stays there.
#[derive(Clone, Copy, Debug, PartialEq, Eq)]
pub struct CredentialStats {
    /// How often the credential was used for a call, whatever the outcome.
    pub total_requests: u64,
    /// How many successes were reported.
    pub success_count: u64,
    /// How many failures were reported.
    pub failure_count: u64,
    /// How many failures were reported since the last success.
    pub consecutive_failures: u32,
    /// When the credential was last handed out.
    pub last_used_at: Option<u64>,
}

impl CredentialStats {
    /// The counters of a credential that was never used.
    pub open spec fn fresh() -> CredentialStats {
        CredentialStats {
            total_requests: 0,
            success_count: 0,
            failure_count: 0,
            consecutive_failures: 0,
            last_used_at: None,
        }
    }

    /// The counters of a credential that was never used.
    pub fn new() -> (r: CredentialStats)
        ensures
            r == CredentialStats::fresh(),
    {
        CredentialStats {
            total_requests: 0,
            success_count: 0,
            failure_count: 0,
            consecutive_failures: 0,
            last_used_at: None,
        }
    }
}

/// One credential of the pool.
#[derive(Debug, PartialEq, Eq)]
pub struct Credential {
    /// Identifies the credential; no two credentials of a pool share it.
    pub id: u64,
    /// The upstream service that the credential authenticates against.
    pub provider: String,
    /// The secret material.
    pub data: CredentialData,
    /// Whether the credential may be handed out.
    pub status: CredentialStatus,
    /// Usage counters.
    pub stats: CredentialStats,
    /// Labels by which a selection can be narrowed.
    pub tags: Vec<String>,
    /// Rank for the priority strategy; the larger number wins.
    pub priority: u32,
}

/// The view of a [`Credential`].
pub struct CredentialView {
    pub id: u64,
    pub provider: Seq<char>,
    pub data: CredentialDataView,
    pub status: StatusView,
    pub stats: CredentialStats,
    pub tags: Seq<Seq<char>>,
    pub priority: u32,
}

impl View for Credential {
    type V = CredentialView;

    open spec fn view(&self) -> CredentialView {
        CredentialView {
            id: self.id,
            provider: self.provider@,
            data: self.data@,
            status: self.status@,
            stats: self.stats,
            tags: texts(self.tags@),
            priority: self.priority,
        }
    }
}

impl Clone for Credential {
    fn clone(&self) -> (r: Credential)
        ensures
            r@ == self@,
    {
        Credential {
            id: self.id,
            provider: self.provider.clone(),
            data: self.data.clone(),
            status: self.status.clone(),
            stats: self.stats,
            tags: copy_texts(&self.tags),
            priority: self.priority,
        }
    }
}

impl CredentialView {
    /// The credential belongs to `provider` and, where a tag is asked for,
    /// carries it.
    pub open spec fn matches(self, provider: Seq<char>, tag: Option<Seq<char>>) -> bool {
        &&& self.provider == provider
        &&& match tag {
            Some(t) => self.tags.contains(t),
            None => true,
        }
    }

    /// The credential matches and may be selected at `now`.
    pub open spec fn selectable(self, provider: Seq<char>, tag: Option<Seq<char>>, now: u64) -> bool {
        self.matches(provider, tag) && self.status.eligible_at(now)
    }
}

impl Credential {
    /// A new credential: active, never used, without tags, of priority 0.
    pub fn new(id: u64, provider: &str, data: CredentialData) -> (r: Credential)
        ensures
            r@ == (CredentialView {
                id,
                provider: provider@,
                data: data@,
                status: StatusView::Active,
                stats: CredentialStats::fresh(),
                tags: Seq::<Seq<char>>::empty(),
                priority: 0,
            }),
    {
        let r = Credential {
            id,
            provider: provider.to_owned(),
            data,
            status: CredentialStatus::Active,
            stats: CredentialStats::new(),
            tags: Vec::new(),
            priority: 0,
        };
        assert(texts(r.tags@) =~= Seq::<Seq<char>>::empty());
        r
    }

    /// The secret of a credential that holds an API key. To ask this of a
    /// credential of another kind is a mistake of the caller.
    pub fn api_key(&self) -> (r: Result<&String, PoolError>)
        ensures
            match self@.data {
                CredentialDataView::ApiKey { secret } => r matches Ok(s) && s@ == secret,
                _ => r == Err::<&String, PoolError>(PoolError::InvalidCredentialVariant),
            },
    {
        match &self.data {
            CredentialData::ApiKey { secret } => Ok(secret),
            _ => Err(PoolError::InvalidCredentialVariant),
        }
    }

    /// The token file and the project of a credential that holds an OAuth
    /// token. To ask this of a credential of another kind is a mistake of
    /// the caller.
    pub fn oauth(&self) -> (r: Result<(&String, &Option<String>), PoolError>)
        ensures
            match self@.data {
                CredentialDataView::OAuth { token_file, project_id } => r matches Ok(pair)
                    && pair.0@ == token_file && text_opt(*pair.1) == project_id,
                _ => r == Err::<(&String, &Option<String>), PoolError>(
                    PoolError::InvalidCredentialVariant,
                ),
            },
    {
        match &self.data {
            CredentialData::OAuth { token_file, project_id } => Ok((token_file, project_id)),
            _ => Err(PoolError::InvalidCredentialVariant),
        }
    }

    /// Whether the credential carries `tag`.
    pub fn has_tag(&self, tag: &String) -> (r: bool)
        ensures
            r == self@.tags.contains(tag@),
    {
        let mut i: usize = 0;
        while i < self.tags.len()
            invariant
                i <= self.tags.len(),
                forall|k: int| 0 <= k < i ==> self.tags[k]@ != tag@,
            decreases self.tags.len() - i,
        {
            if self.tags[i] == *tag {
                assert(texts(self.tags@)[i as int] == tag@);
                return true;
            }
            i = i + 1;
        }
        false
    }

    /// Whether the credential belongs to `provider` and carries the tag, if
    /// one is asked for.
    pub fn matches(&self, provider: &String, tag: &Option<String>) -> (r: bool)
        ensures
            r == self@.matches(provider@, text_opt(*tag)),
    {
        if self.provider == *provider {
            match tag {
                Some(t) => self.has_tag(t),
                None => true,
            }
        } else {
            false
        }
    }
}

} // verus!
