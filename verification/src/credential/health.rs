//! The health state machine: how reported successes and failures move a
//! credential between active, cooldown and disabled.
//!
//! A credential leaves rotation for a while once enough failures have come
//! in a row, for longer each time, and comes back by the clock alone. A
//! failure that no retry can mend disables it until an operator steps in.
//! The run of failures is counted until the next success, so it keeps
//! growing through successive cooldowns and the cooldowns grow with it.

use vstd::prelude::*;
use vstd::arithmetic::mul::{
    lemma_mul_is_associative, lemma_mul_is_commutative, lemma_mul_left_inequality,
    lemma_mul_strictly_positive,
};
use vstd::arithmetic::power::{lemma1_pow, lemma_pow_increases, lemma_pow_positive, pow};
use crate::credential::types::{
    bump32, bump64, Credential, CredentialStats, CredentialStatus, CredentialView, StatusView,
};

verus! {

/// The tunables of the health state machine. A value of this type is always
/// valid: see [`HealthCheckConfig::valid`].
#[derive(Clone, Copy, Debug, PartialEq, Eq)]
pub struct HealthCheckConfig {
    max_consecutive_failures: u32,
    base_cooldown: u64,
    max_cooldown: u64,
    backoff_multiplier: u32,
}

impl HealthCheckConfig {
    /// How many failures in a row send a credential into cooldown.
    pub closed spec fn spec_max_consecutive_failures(&self) -> u32 {
        self.max_consecutive_failures
    }

    /// How long the first cooldown lasts.
    pub closed spec fn spec_base_cooldown(&self) -> u64 {
        self.base_cooldown
    }

    /// The longest that a cooldown may last.
    pub closed spec fn spec_max_cooldown(&self) -> u64 {
        self.max_cooldown
    }

    /// By how much a cooldown grows with each further failure.
    pub closed spec fn spec_backoff_multiplier(&self) -> u32 {
        self.backoff_multiplier
    }

    /// What makes a set of tunables usable: a cooldown lasts at least one
    /// unit of time, and never shrinks as failures go on. Any threshold
    /// will do: with a threshold of zero the first failure starts a
    /// cooldown. A cap below the base makes every cooldown as long as the
    /// cap.
    pub open spec fn acceptable(
        max_consecutive_failures: u32,
        base_cooldown: u64,
        max_cooldown: u64,
        backoff_multiplier: u32,
    ) -> bool {
        &&& base_cooldown >= 1
        &&& max_cooldown >= 1
        &&& backoff_multiplier >= 1
    }

    /// The tunables are acceptable.
    #[verifier::type_invariant]
    pub open spec fn valid(self) -> bool {
        Self::acceptable(
            self.max_consecutive_failures(),
            self.base_cooldown(),
            self.max_cooldown(),
            self.backoff_multiplier(),
        )
    }

    /// The tunables with the given values, or `None` where they are not
    /// acceptable.
    pub fn new(
        max_consecutive_failures: u32,
        base_cooldown: u64,
        max_cooldown: u64,
        backoff_multiplier: u32,
    ) -> (r: Option<HealthCheckConfig>)
        ensures
            r is Some <==> Self::acceptable(
                max_consecutive_failures,
                base_cooldown,
                max_cooldown,
                backoff_multiplier,
            ),
            r matches Some(c) ==> {
                &&& c.valid()
                &&& c.max_consecutive_failures() == max_consecutive_failures
                &&& c.base_cooldown() == base_cooldown
                &&& c.max_cooldown() == max_cooldown
                &&& c.backoff_multiplier() == backoff_multiplier
            },
    {
        if base_cooldown >= 1 && max_cooldown >= 1 && backoff_multiplier >= 1 {
            Some(
                HealthCheckConfig {
                    max_consecutive_failures,
                    base_cooldown,
                    max_cooldown,
                    backoff_multiplier,
                },
            )
        } else {
            None
        }
    }

    /// How many failures in a row send a credential into cooldown.
    #[verifier::when_used_as_spec(spec_max_consecutive_failures)]
    pub fn max_consecutive_failures(&self) -> (r: u32)
        ensures
            r == self.max_consecutive_failures(),
    {
        self.max_consecutive_failures
    }

    /// How long the first cooldown lasts.
    #[verifier::when_used_as_spec(spec_base_cooldown)]
    pub fn base_cooldown(&self) -> (r: u64)
        ensures
            r == self.base_cooldown(),
    {
        self.base_cooldown
    }

    /// The longest that a cooldown may last.
    #[verifier::when_used_as_spec(spec_max_cooldown)]
    pub fn max_cooldown(&self) -> (r: u64)
        ensures
            r == self.max_cooldown(),
    {
        self.max_cooldown
    }

    /// By how much a cooldown grows with each further failure.
    #[verifier::when_used_as_spec(spec_backoff_multiplier)]
    pub fn backoff_multiplier(&self) -> (r: u32)
        ensures
            r == self.backoff_multiplier(),
    {
        self.backoff_multiplier
    }

    /// How many failures lie beyond the threshold.
    pub open spec fn excess(self, consecutive_failures: u32) -> nat {
        if consecutive_failures >= self.max_consecutive_failures() {
            (consecutive_failures - self.max_consecutive_failures()) as nat
        } else {
            0
        }
    }

    /// The length of the cooldown after `consecutive_failures` failures in
    /// a row: the base, multiplied once for each failure beyond the
    /// threshold, and capped.
    pub open spec fn cooldown_length(self, consecutive_failures: u32) -> int {
        vstd::math::min(
            self.base_cooldown() * pow(
                self.backoff_multiplier() as int,
                self.excess(consecutive_failures),
            ),
            self.max_cooldown() as int,
        )
    }

    /// Computes [`Self::cooldown_length`].
    pub fn cooldown_for(&self, consecutive_failures: u32) -> (r: u64)
        ensures
            r == self.cooldown_length(consecutive_failures),
            1 <= r <= self.max_cooldown(),
    {
        proof {
            use_type_invariant(self);
        }
        let cap: u64 = self.max_cooldown;
        let factor: u32 = self.backoff_multiplier;
        let steps: u32 = if consecutive_failures >= self.max_consecutive_failures {
            consecutive_failures - self.max_consecutive_failures
        } else {
            0
        };
        let start: u64 = if self.base_cooldown <= cap {
            self.base_cooldown
        } else {
            cap
        };
        if factor == 1 {
            proof {
                lemma1_pow(steps as nat);
            }
            return start;
        }
        let mut length: u64 = start;
        let mut done: u32 = 0;
        proof {
            reveal(pow);
        }
        while done < steps && length < cap
            invariant
                done <= steps,
                factor >= 1,
                factor == self.backoff_multiplier(),
                cap == self.max_cooldown(),
                1 <= length <= cap,
                length == vstd::math::min(
                    self.base_cooldown() * pow(factor as int, done as nat),
                    cap as int,
                ),
            decreases steps - done,
        {
            assert(length * factor <= 0xffff_ffff_ffff_ffff * 0xffff_ffff) by (nonlinear_arith)
                requires
                    0 <= length <= 0xffff_ffff_ffff_ffff,
                    0 <= factor <= 0xffff_ffff,
            {}
            let grown: u128 = length as u128 * factor as u128;
            proof {
                let base = self.base_cooldown() as int;
                let f = factor as int;
                let p = pow(f, done as nat);
                assert(length == base * p);
                assert(pow(f, (done + 1) as nat) == f * p) by {
                    reveal(pow);
                }
                assert(base * (f * p) == (base * p) * f) by {
                    lemma_mul_is_associative(base, p, f);
                    lemma_mul_is_commutative(f, p);
                }
                assert(grown == base * pow(f, (done + 1) as nat));
                assert(grown >= length) by (nonlinear_arith)
                    requires
                        grown == length * factor,
                        factor >= 1,
                        length >= 1,
                {}
            }
            length = if grown >= cap as u128 {
                cap
            } else {
                grown as u64
            };
            done = done + 1;
        }
        proof {
            if done < steps {
                let base = self.base_cooldown() as int;
                let f = factor as int;
                lemma_pow_increases(factor as nat, done as nat, steps as nat);
                lemma_pow_positive(f, done as nat);
                lemma_mul_left_inequality(base, pow(f, done as nat), pow(f, steps as nat));
            }
        }
        length
    }
}

/// What kind of failure was reported.
#[derive(Clone, Copy, Debug, PartialEq, Eq, Structural)]
pub enum FailureClass {
    /// The call may succeed later: a network fault, a rate limit.
    Transient,
    /// No retry will help until the credential is authorised anew.
    RequiresReauth,
}

/// What a caller knows of a failed token refresh: whether a new
/// authorisation is needed, and a message fit for the user.
#[derive(Debug, PartialEq, Eq)]
pub struct FailureDetails {
    pub requires_reauth: bool,
    pub user_message: String,
}

impl FailureDetails {
    /// The class that the details stand for.
    pub open spec fn class(self) -> FailureClass {
        if self.requires_reauth {
            FailureClass::RequiresReauth
        } else {
            FailureClass::Transient
        }
    }

    /// Details of a failure with the given verdict and message.
    pub fn new(requires_reauth: bool, user_message: &str) -> (r: FailureDetails)
        ensures
            r.requires_reauth == requires_reauth,
            r.user_message@ == user_message@,
    {
        FailureDetails { requires_reauth, user_message: user_message.to_owned() }
    }

    /// Whether the credential has to be authorised anew.
    pub fn requires_reauth(&self) -> (r: bool)
        ensures
            r == self.requires_reauth,
    {
        self.requires_reauth
    }

    /// The message for the user.
    pub fn user_message(&self) -> (r: &String)
        ensures
            r@ == self.user_message@,
    {
        &self.user_message
    }

    /// The class that the details stand for.
    pub fn classification(&self) -> (r: FailureClass)
        ensures
            r == self.class(),
    {
        if self.requires_reauth {
            FailureClass::RequiresReauth
        } else {
            FailureClass::Transient
        }
    }
}

/// When a cooldown of the given length that starts at `now` ends. The end
/// stays at the largest timestamp where the sum would pass it.
pub open spec fn cooldown_end(now: u64, length: int) -> u64 {
    if now + length <= u64::MAX {
        (now + length) as u64
    } else {
        u64::MAX
    }
}

/// The credential after a reported success: back in rotation unless it is
/// disabled, the run of failures at zero, one more success counted.
pub open spec fn after_success(c: CredentialView) -> CredentialView {
    CredentialView {
        status: if c.status is Disabled {
            c.status
        } else {
            StatusView::Active
        },
        stats: CredentialStats {
            success_count: bump64(c.stats.success_count),
            consecutive_failures: 0,
            ..c.stats
        },
        ..c
    }
}

/// The status after a reported failure that brought the run of failures to
/// `failures`.
pub open spec fn status_after_failure(
    config: HealthCheckConfig,
    status: StatusView,
    failures: u32,
    class: FailureClass,
    reason: Seq<char>,
    now: u64,
) -> StatusView {
    match class {
        FailureClass::RequiresReauth => StatusView::Disabled { reason },
        FailureClass::Transient => {
            if status is Disabled {
                status
            } else if failures >= config.max_consecutive_failures() {
                StatusView::Cooldown { until: cooldown_end(now, config.cooldown_length(failures)) }
            } else {
                status
            }
        },
    }
}

/// The credential after a failure reported at `now`: one more failure
/// counted, the run of failures one longer, and the status moved as
/// [`status_after_failure`] says.
pub open spec fn after_failure(
    config: HealthCheckConfig,
    c: CredentialView,
    class: FailureClass,
    reason: Seq<char>,
    now: u64,
) -> CredentialView {
    let failures = bump32(c.stats.consecutive_failures);
    CredentialView {
        status: status_after_failure(config, c.status, failures, class, reason, now),
        stats: CredentialStats {
            failure_count: bump64(c.stats.failure_count),
            consecutive_failures: failures,
            ..c.stats
        },
        ..c
    }
}

/// The credential after an operator has put it back into rotation: a
/// disabled credential is active again with a clean run; any other is left
/// as it is.
pub open spec fn after_enable(c: CredentialView) -> CredentialView {
    if c.status is Disabled {
        CredentialView {
            status: StatusView::Active,
            stats: CredentialStats { consecutive_failures: 0, ..c.stats },
            ..c
        }
    } else {
        c
    }
}

/// The health state machine, with the tunables it runs on.
#[derive(Clone, Copy, Debug)]
pub struct HealthChecker {
    pub config: HealthCheckConfig,
}

impl HealthChecker {
    /// A state machine that runs on `config`.
    pub fn new(config: HealthCheckConfig) -> (r: HealthChecker)
        ensures
            r.config == config,
    {
        HealthChecker { config }
    }

    /// Records a success on `credential`.
    pub fn report_success(&self, credential: &mut Credential)
        ensures
            final(credential)@ == after_success(old(credential)@),
    {
        if !credential.status.is_disabled() {
            credential.status = CredentialStatus::Active;
        }
        if credential.stats.success_count < u64::MAX {
            credential.stats.success_count = credential.stats.success_count + 1;
        }
        credential.stats.consecutive_failures = 0;
    }

    /// Records a failure of the given class on `credential`, reported at
    /// `now`. The reason is kept only where the credential is disabled.
    pub fn report_failure(
        &self,
        credential: &mut Credential,
        class: FailureClass,
        reason: &str,
        now: u64,
    )
        ensures
            final(credential)@ == after_failure(
                self.config,
                old(credential)@,
                class,
                reason@,
                now,
            ),
    {
        if credential.stats.failure_count < u64::MAX {
            credential.stats.failure_count = credential.stats.failure_count + 1;
        }
        if credential.stats.consecutive_failures < u32::MAX {
            credential.stats.consecutive_failures = credential.stats.consecutive_failures + 1;
        }
        let failures: u32 = credential.stats.consecutive_failures;
        match class {
            FailureClass::RequiresReauth => {
                credential.status = CredentialStatus::Disabled { reason: reason.to_owned() };
            },
            FailureClass::Transient => {
                if !credential.status.is_disabled() && failures
                    >= self.config.max_consecutive_failures() {
                    let length: u64 = self.config.cooldown_for(failures);
                    let until: u64 = if length <= u64::MAX - now {
                        now + length
                    } else {
                        u64::MAX
                    };
                    credential.status = CredentialStatus::Cooldown { until };
                }
            },
        }
    }

    /// Puts a disabled credential back into rotation.
    pub fn enable(&self, credential: &mut Credential)
        ensures
            final(credential)@ == after_enable(old(credential)@),
    {
        if credential.status.is_disabled() {
            credential.status = CredentialStatus::Active;
            credential.stats.consecutive_failures = 0;
        }
    }
}

/// A cooldown lasts at least one unit of time and at most the cap.
pub proof fn lemma_cooldown_length_bounds(config: HealthCheckConfig, consecutive_failures: u32)
    requires
        config.valid(),
    ensures
        1 <= config.cooldown_length(consecutive_failures) <= config.max_cooldown(),
{
    let base = config.base_cooldown() as int;
    let power = pow(config.backoff_multiplier() as int, config.excess(consecutive_failures));
    lemma_pow_positive(config.backoff_multiplier() as int, config.excess(consecutive_failures));
    lemma_mul_strictly_positive(base, power);
}

/// Whenever a failure reported before the end of time moves a credential
/// into a cooldown, that cooldown ends later than the report.
pub proof fn lemma_cooldown_ends_later(
    config: HealthCheckConfig,
    c: CredentialView,
    class: FailureClass,
    reason: Seq<char>,
    now: u64,
)
    requires
        config.valid(),
        now < u64::MAX,
    ensures
        ({
            let next = after_failure(config, c, class, reason, now);
            next.status matches StatusView::Cooldown { until } ==> next.status == c.status || (until
                > now && !next.status.eligible_at(now))
        }),
{
    lemma_cooldown_length_bounds(config, bump32(c.stats.consecutive_failures));
}

/// A failure that calls for a new authorisation disables the credential at
/// once, however few failures came before it.
pub proof fn lemma_reauth_disables(
    config: HealthCheckConfig,
    c: CredentialView,
    reason: Seq<char>,
    now: u64,
)
    ensures
        after_failure(config, c, FailureClass::RequiresReauth, reason, now).status == (
        StatusView::Disabled { reason }),
        !after_failure(config, c, FailureClass::RequiresReauth, reason, now).status.eligible_at(
            now,
        ),
{
}

/// A success ends the run of failures, and ends a cooldown at once,
/// whether or not its time has run out.
pub proof fn lemma_success_restores(c: CredentialView)
    ensures
        after_success(c).stats.consecutive_failures == 0,
        c.status is Cooldown ==> after_success(c).status == StatusView::Active,
        c.status is Active ==> after_success(c).status == StatusView::Active,
{
}

/// Neither a success nor a failure brings a disabled credential back, and
/// only a failure that calls for a new authorisation disables one: the
/// backoff never does.
pub proof fn lemma_disabled_is_terminal(
    config: HealthCheckConfig,
    c: CredentialView,
    class: FailureClass,
    reason: Seq<char>,
    now: u64,
)
    ensures
        c.status is Disabled ==> after_success(c).status == c.status,
        c.status is Disabled ==> after_failure(config, c, class, reason, now).status is Disabled,
        c.status is Disabled ==> after_failure(
            config,
            c,
            FailureClass::Transient,
            reason,
            now,
        ).status == c.status,
        !(c.status is Disabled) ==> !(after_success(c).status is Disabled),
        !(c.status is Disabled) ==> !(after_failure(
            config,
            c,
            FailureClass::Transient,
            reason,
            now,
        ).status is Disabled),
{
}

/// The credential after one transient failure at each of `times`, in turn.
pub open spec fn after_transient_failures(
    config: HealthCheckConfig,
    c: CredentialView,
    times: Seq<u64>,
) -> CredentialView
    decreases times.len(),
{
    if times.len() == 0 {
        c
    } else {
        after_failure(
            config,
            after_transient_failures(config, c, times.drop_last()),
            FailureClass::Transient,
            Seq::<char>::empty(),
            times.last(),
        )
    }
}

/// Transient failures never disable, and each makes the run one longer.
pub proof fn lemma_transient_failures_count(
    config: HealthCheckConfig,
    c: CredentialView,
    times: Seq<u64>,
)
    requires
        !(c.status is Disabled),
    ensures
        !(after_transient_failures(config, c, times).status is Disabled),
        after_transient_failures(config, c, times).stats.consecutive_failures == vstd::math::min(
            c.stats.consecutive_failures + times.len(),
            u32::MAX as int,
        ),
    decreases times.len(),
{
    if times.len() > 0 {
        lemma_transient_failures_count(config, c, times.drop_last());
    }
}

/// Once as many transient failures have been reported in a row as the
/// threshold asks for, and one at least, the credential is in a cooldown
/// that ends after the last report, so it cannot be selected at that
/// moment.
pub proof fn lemma_repeated_failures_cool_down(
    config: HealthCheckConfig,
    c: CredentialView,
    times: Seq<u64>,
)
    requires
        config.valid(),
        !(c.status is Disabled),
        times.len() >= 1,
        times.len() >= config.max_consecutive_failures(),
        times.last() < u64::MAX,
    ensures
        after_transient_failures(config, c, times).status matches StatusView::Cooldown { until }
            && until > times.last(),
        !after_transient_failures(config, c, times).status.eligible_at(times.last()),
{
    let before = after_transient_failures(config, c, times.drop_last());
    lemma_transient_failures_count(config, c, times.drop_last());
    lemma_cooldown_length_bounds(config, bump32(before.stats.consecutive_failures));
}

} // verus!
