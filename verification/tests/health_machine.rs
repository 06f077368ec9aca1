use credential_pool::credential::{
    Credential, CredentialData, CredentialStats, CredentialStatus, FailureClass, FailureDetails,
    HealthCheckConfig, HealthChecker,
};

fn fresh(id: u64) -> Credential {
    Credential::new(id, "openai", CredentialData::ApiKey { secret: "k".to_string() })
}

fn checker() -> HealthChecker {
    HealthChecker::new(HealthCheckConfig::new(2, 10, 100, 2).unwrap())
}

#[test]
fn config_keeps_what_it_was_given() {
    let config = HealthCheckConfig::new(3, 60, 3600, 2).unwrap();
    assert_eq!(config.max_consecutive_failures(), 3);
    assert_eq!(config.base_cooldown(), 60);
    assert_eq!(config.max_cooldown(), 3600);
    assert_eq!(config.backoff_multiplier(), 2);
}

#[test]
fn a_threshold_of_zero_cools_down_at_the_first_failure() {
    let config = HealthCheckConfig::new(0, 10, 100, 2).unwrap();
    assert_eq!(config.max_consecutive_failures(), 0);
    assert_eq!(config.cooldown_for(0), 10);
    assert_eq!(config.cooldown_for(1), 20);
    assert_eq!(config.cooldown_for(3), 80);
    assert_eq!(config.cooldown_for(4), 100);
    let mut c = fresh(1);
    HealthChecker::new(config).report_failure(&mut c, FailureClass::Transient, "timeout", 500);
    assert_eq!(c.status, CredentialStatus::Cooldown { until: 520 });
    assert_eq!(c.stats.consecutive_failures, 1);
}

#[test]
fn config_refuses_a_cooldown_of_no_length() {
    assert_eq!(HealthCheckConfig::new(3, 0, 3600, 2), None);
}

#[test]
fn a_cap_below_the_base_is_the_length_of_every_cooldown() {
    let config = HealthCheckConfig::new(3, 60, 59, 2).unwrap();
    assert_eq!(config.cooldown_for(0), 59);
    assert_eq!(config.cooldown_for(3), 59);
    assert_eq!(config.cooldown_for(4), 59);
    assert_eq!(config.cooldown_for(u32::MAX), 59);
    let one = HealthCheckConfig::new(3, 60, 59, 1).unwrap();
    assert_eq!(one.cooldown_for(9), 59);
    let mut c = fresh(1);
    let h = HealthChecker::new(HealthCheckConfig::new(1, 60, 5, 3).unwrap());
    h.report_failure(&mut c, FailureClass::Transient, "timeout", 100);
    assert_eq!(c.status, CredentialStatus::Cooldown { until: 105 });
}

#[test]
fn config_refuses_a_cap_of_no_length() {
    assert_eq!(HealthCheckConfig::new(3, 60, 0, 2), None);
    assert!(HealthCheckConfig::new(3, 60, 1, 2).is_some());
}

#[test]
fn config_refuses_a_multiplier_of_zero() {
    assert_eq!(HealthCheckConfig::new(3, 60, 3600, 0), None);
    assert!(HealthCheckConfig::new(1, 1, 1, 1).is_some());
}

#[test]
fn cooldown_doubles_until_the_cap() {
    let config = HealthCheckConfig::new(2, 10, 100, 2).unwrap();
    assert_eq!(config.cooldown_for(2), 10);
    assert_eq!(config.cooldown_for(3), 20);
    assert_eq!(config.cooldown_for(4), 40);
    assert_eq!(config.cooldown_for(5), 80);
    assert_eq!(config.cooldown_for(6), 100);
    assert_eq!(config.cooldown_for(7), 100);
    assert_eq!(config.cooldown_for(u32::MAX), 100);
}

#[test]
fn cooldown_below_the_threshold_is_the_base() {
    let config = HealthCheckConfig::new(5, 10, 100, 3).unwrap();
    assert_eq!(config.cooldown_for(0), 10);
    assert_eq!(config.cooldown_for(4), 10);
    assert_eq!(config.cooldown_for(5), 10);
    assert_eq!(config.cooldown_for(6), 30);
    assert_eq!(config.cooldown_for(7), 90);
    assert_eq!(config.cooldown_for(8), 100);
}

#[test]
fn cooldown_with_multiplier_one_never_grows() {
    let config = HealthCheckConfig::new(1, 7, 1000, 1).unwrap();
    assert_eq!(config.cooldown_for(1), 7);
    assert_eq!(config.cooldown_for(1000), 7);
    assert_eq!(config.cooldown_for(u32::MAX), 7);
}

#[test]
fn cooldown_survives_huge_numbers() {
    let config = HealthCheckConfig::new(1, u64::MAX - 1, u64::MAX, u32::MAX).unwrap();
    assert_eq!(config.cooldown_for(1), u64::MAX - 1);
    assert_eq!(config.cooldown_for(2), u64::MAX);
    assert_eq!(config.cooldown_for(u32::MAX), u64::MAX);
}

#[test]
fn one_failure_below_the_threshold_keeps_the_credential_active() {
    let mut c = fresh(1);
    checker().report_failure(&mut c, FailureClass::Transient, "timeout", 500);
    assert_eq!(c.status, CredentialStatus::Active);
    assert_eq!(c.stats.failure_count, 1);
    assert_eq!(c.stats.consecutive_failures, 1);
    assert_eq!(c.stats.success_count, 0);
}

#[test]
fn failures_at_the_threshold_start_a_cooldown_that_grows() {
    let mut c = fresh(1);
    let h = checker();
    h.report_failure(&mut c, FailureClass::Transient, "timeout", 500);
    h.report_failure(&mut c, FailureClass::Transient, "timeout", 501);
    assert_eq!(c.status, CredentialStatus::Cooldown { until: 511 });
    h.report_failure(&mut c, FailureClass::Transient, "timeout", 520);
    assert_eq!(c.status, CredentialStatus::Cooldown { until: 540 });
    h.report_failure(&mut c, FailureClass::Transient, "timeout", 600);
    assert_eq!(c.status, CredentialStatus::Cooldown { until: 640 });
    assert_eq!(c.stats.consecutive_failures, 4);
    assert_eq!(c.stats.failure_count, 4);
}

#[test]
fn a_cooldown_that_would_pass_the_end_of_time_ends_there() {
    let mut c = fresh(1);
    let h = HealthChecker::new(HealthCheckConfig::new(1, 10, 100, 2).unwrap());
    h.report_failure(&mut c, FailureClass::Transient, "timeout", u64::MAX - 3);
    assert_eq!(c.status, CredentialStatus::Cooldown { until: u64::MAX });
}

#[test]
fn reauth_disables_a_credential_without_earlier_failures() {
    let mut c = fresh(1);
    checker().report_failure(&mut c, FailureClass::RequiresReauth, "invalid_grant", 9);
    assert_eq!(c.status, CredentialStatus::Disabled { reason: "invalid_grant".to_string() });
    assert_eq!(c.stats.consecutive_failures, 1);
    assert_eq!(c.stats.failure_count, 1);
}

#[test]
fn reauth_disables_a_credential_in_cooldown() {
    let mut c = fresh(1);
    c.status = CredentialStatus::Cooldown { until: 900 };
    c.stats.consecutive_failures = 7;
    checker().report_failure(&mut c, FailureClass::RequiresReauth, "revoked", 9);
    assert_eq!(c.status, CredentialStatus::Disabled { reason: "revoked".to_string() });
    assert_eq!(c.stats.consecutive_failures, 8);
}

#[test]
fn a_disabled_credential_stays_disabled() {
    let mut c = fresh(1);
    let h = checker();
    h.report_failure(&mut c, FailureClass::RequiresReauth, "revoked", 9);
    h.report_success(&mut c);
    assert_eq!(c.status, CredentialStatus::Disabled { reason: "revoked".to_string() });
    assert_eq!(c.stats.success_count, 1);
    assert_eq!(c.stats.consecutive_failures, 0);
    for now in 10..20 {
        h.report_failure(&mut c, FailureClass::Transient, "timeout", now);
    }
    assert_eq!(c.status, CredentialStatus::Disabled { reason: "revoked".to_string() });
    assert_eq!(c.stats.consecutive_failures, 10);
}

#[test]
fn success_ends_a_running_cooldown() {
    let mut c = fresh(1);
    c.status = CredentialStatus::Cooldown { until: u64::MAX };
    c.stats.consecutive_failures = 5;
    c.stats.failure_count = 9;
    checker().report_success(&mut c);
    assert_eq!(c.status, CredentialStatus::Active);
    assert_eq!(
        c.stats,
        CredentialStats {
            total_requests: 0,
            success_count: 1,
            failure_count: 9,
            consecutive_failures: 0,
            last_used_at: None,
        }
    );
}

#[test]
fn counters_stop_at_their_largest_value() {
    let mut c = fresh(1);
    c.stats.success_count = u64::MAX;
    c.stats.failure_count = u64::MAX;
    c.stats.consecutive_failures = u32::MAX;
    let h = checker();
    h.report_failure(&mut c, FailureClass::Transient, "timeout", 1);
    assert_eq!(c.stats.failure_count, u64::MAX);
    assert_eq!(c.stats.consecutive_failures, u32::MAX);
    assert_eq!(c.status, CredentialStatus::Cooldown { until: 101 });
    h.report_success(&mut c);
    assert_eq!(c.stats.success_count, u64::MAX);
    assert_eq!(c.stats.consecutive_failures, 0);
}

#[test]
fn enable_brings_back_only_the_disabled() {
    let h = checker();
    let mut disabled = fresh(1);
    h.report_failure(&mut disabled, FailureClass::RequiresReauth, "revoked", 9);
    h.enable(&mut disabled);
    assert_eq!(disabled.status, CredentialStatus::Active);
    assert_eq!(disabled.stats.consecutive_failures, 0);
    assert_eq!(disabled.stats.failure_count, 1);

    let mut cooling = fresh(2);
    cooling.status = CredentialStatus::Cooldown { until: 50 };
    cooling.stats.consecutive_failures = 2;
    h.enable(&mut cooling);
    assert_eq!(cooling.status, CredentialStatus::Cooldown { until: 50 });
    assert_eq!(cooling.stats.consecutive_failures, 2);
}

#[test]
fn eligibility_follows_the_clock() {
    let cooling = CredentialStatus::Cooldown { until: 100 };
    assert!(!cooling.is_eligible(99));
    assert!(cooling.is_eligible(100));
    assert!(cooling.is_eligible(101));
    assert!(cooling.is_cooling(99));
    assert!(!cooling.is_cooling(100));
    assert!(CredentialStatus::Active.is_eligible(0));
    assert!(!CredentialStatus::Active.is_cooling(0));
    let disabled = CredentialStatus::Disabled { reason: "x".to_string() };
    assert!(!disabled.is_eligible(u64::MAX));
    assert!(!disabled.is_cooling(0));
    assert!(disabled.is_disabled());
    assert!(!cooling.is_disabled());
}

#[test]
fn failure_details_say_their_class() {
    let gone = FailureDetails::new(true, "sign in again");
    assert!(gone.requires_reauth());
    assert_eq!(gone.user_message(), "sign in again");
    assert_eq!(gone.classification(), FailureClass::RequiresReauth);
    let later = FailureDetails::new(false, "try later");
    assert!(!later.requires_reauth());
    assert_eq!(later.classification(), FailureClass::Transient);
}
