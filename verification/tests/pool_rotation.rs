use credential_pool::credential::{
    BalanceStrategy, Credential, CredentialData, CredentialPool, CredentialStats,
    CredentialStatus, FailureClass, FailureDetails, HealthCheckConfig, PoolError, SyncRecord,
};

fn key(secret: &str) -> CredentialData {
    CredentialData::ApiKey { secret: secret.to_string() }
}

fn config() -> HealthCheckConfig {
    HealthCheckConfig::new(2, 10, 100, 2).unwrap()
}

fn pool_of_three(strategy: BalanceStrategy) -> (CredentialPool, u64, u64, u64) {
    let mut pool = CredentialPool::new(config(), strategy);
    let a = pool.add_credential("openai", key("a"), Vec::new(), 0).unwrap();
    let b = pool.add_credential("openai", key("b"), Vec::new(), 0).unwrap();
    let c = pool.add_credential("openai", key("c"), Vec::new(), 0).unwrap();
    (pool, a, b, c)
}

fn selected(pool: &mut CredentialPool, provider: &str, now: u64, draws: &[u64]) -> Vec<u64> {
    draws.iter().map(|d| pool.select_credential(provider, None, now, *d).unwrap().id).collect()
}

#[test]
fn ids_are_given_in_order_and_never_again() {
    let (mut pool, a, b, c) = pool_of_three(BalanceStrategy::RoundRobin);
    assert_eq!((a, b, c), (0, 1, 2));
    assert_eq!(pool.len(), 3);
    assert_eq!(pool.remove_credential(c).map(|x| x.id), Ok(2));
    assert_eq!(pool.remove_credential(c), Err(PoolError::NotFound(2)));
    assert_eq!(pool.add_credential("openai", key("d"), Vec::new(), 0), Some(3));
    assert_eq!(pool.len(), 3);
    assert_eq!(pool.credential(2), Err(PoolError::NotFound(2)));
}

#[test]
fn a_new_credential_carries_what_it_was_given() {
    let mut pool = CredentialPool::new(config(), BalanceStrategy::Priority);
    let id = pool
        .add_credential("vertex", key("s"), vec!["eu".to_string(), "batch".to_string()], 7)
        .unwrap();
    let mut expected = Credential::new(id, "vertex", key("s"));
    expected.tags = vec!["eu".to_string(), "batch".to_string()];
    expected.priority = 7;
    assert_eq!(pool.credential(id), Ok(expected));
    assert_eq!(pool.strategy(), BalanceStrategy::Priority);
    assert_eq!(pool.config(), config());
}

#[test]
fn round_robin_goes_round() {
    let (mut pool, a, b, c) = pool_of_three(BalanceStrategy::RoundRobin);
    assert_eq!(selected(&mut pool, "openai", 1, &[0, 0, 0, 0, 0, 0]), vec![a, b, c, a, b, c]);
}

#[test]
fn selection_stamps_the_time_of_use() {
    let (mut pool, a, b, _c) = pool_of_three(BalanceStrategy::RoundRobin);
    let first = pool.select_credential("openai", None, 41, 0).unwrap();
    assert_eq!(first.id, a);
    assert_eq!(first.stats.last_used_at, Some(41));
    assert_eq!(first.stats.total_requests, 0);
    assert_eq!(pool.credential(a).unwrap(), first);
    assert_eq!(pool.credential(b).unwrap().stats.last_used_at, None);
}

#[test]
fn selection_knows_only_the_provider_asked_for() {
    let (mut pool, _a, _b, _c) = pool_of_three(BalanceStrategy::RoundRobin);
    let v = pool.add_credential("vertex", key("v"), Vec::new(), 0).unwrap();
    assert_eq!(selected(&mut pool, "vertex", 1, &[0, 0]), vec![v, v]);
    assert_eq!(
        pool.select_credential("mistral", None, 1, 0),
        Err(PoolError::NoAvailableCredential)
    );
    assert_eq!(pool.select_credential("", None, 1, 0), Err(PoolError::NoAvailableCredential));
}

#[test]
fn selection_narrows_by_tag() {
    let mut pool = CredentialPool::new(config(), BalanceStrategy::RoundRobin);
    let a = pool.add_credential("openai", key("a"), vec!["eu".to_string()], 0).unwrap();
    let b = pool.add_credential("openai", key("b"), vec!["us".to_string()], 0).unwrap();
    let c = pool
        .add_credential("openai", key("c"), vec!["us".to_string(), "eu".to_string()], 0)
        .unwrap();
    let mut got = Vec::new();
    for _ in 0..4 {
        got.push(pool.select_credential("openai", Some("eu"), 1, 0).unwrap().id);
    }
    assert_eq!(got, vec![a, c, a, c]);
    assert_eq!(pool.select_credential("openai", Some("us"), 1, 0).unwrap().id, b);
    assert_eq!(
        pool.select_credential("openai", Some("asia"), 1, 0),
        Err(PoolError::NoAvailableCredential)
    );
}

#[test]
fn an_empty_pool_is_exhausted() {
    let mut pool = CredentialPool::new(config(), BalanceStrategy::Random);
    assert_eq!(pool.select_credential("openai", None, 1, 5), Err(PoolError::NoAvailableCredential));
    assert_eq!(pool.len(), 0);
    assert!(pool.take_unsaved().is_empty());
}

#[test]
fn two_transient_failures_start_a_cooldown() {
    let (mut pool, a, b, c) = pool_of_three(BalanceStrategy::RoundRobin);
    assert_eq!(pool.mark_unhealthy(a, "timeout", 1000), Ok(()));
    assert_eq!(pool.credential(a).unwrap().status, CredentialStatus::Active);
    assert_eq!(pool.mark_unhealthy(a, "timeout", 1001), Ok(()));
    assert_eq!(pool.credential(a).unwrap().status, CredentialStatus::Cooldown { until: 1011 });
    for strategy in [
        BalanceStrategy::RoundRobin,
        BalanceStrategy::Random,
        BalanceStrategy::LeastRecentlyUsed,
        BalanceStrategy::WeightedBySuccessRate,
        BalanceStrategy::Priority,
    ] {
        pool.reconfigure(config(), strategy);
        for draw in 0..9 {
            let got = pool.select_credential("openai", None, 1001, draw).unwrap().id;
            assert!(got == b || got == c);
        }
    }
}

#[test]
fn a_cooldown_ends_by_the_clock_alone() {
    let mut pool = CredentialPool::new(config(), BalanceStrategy::RoundRobin);
    let a = pool.add_credential("openai", key("a"), Vec::new(), 0).unwrap();
    pool.mark_unhealthy(a, "timeout", 1000).unwrap();
    pool.mark_unhealthy(a, "timeout", 1001).unwrap();
    assert_eq!(
        pool.select_credential("openai", None, 1010, 0),
        Err(PoolError::NoAvailableCredential)
    );
    let back = pool.select_credential("openai", None, 1011, 0).unwrap();
    assert_eq!(back.id, a);
    assert_eq!(back.status, CredentialStatus::Cooldown { until: 1011 });
    assert_eq!(back.stats.consecutive_failures, 2);
    assert_eq!(pool.select_credential("openai", None, 5000, 0).unwrap().id, a);
}

#[test]
fn reauth_disables_at_once() {
    let (mut pool, a, b, c) = pool_of_three(BalanceStrategy::RoundRobin);
    let details = FailureDetails::new(true, "grant revoked");
    assert_eq!(pool.mark_unhealthy_with_details(a, &details, 5), Ok(()));
    let after = pool.credential(a).unwrap();
    assert_eq!(after.status, CredentialStatus::Disabled { reason: "grant revoked".to_string() });
    assert_eq!(after.stats.consecutive_failures, 1);
    assert_eq!(after.stats.failure_count, 1);
    assert_eq!(selected(&mut pool, "openai", u64::MAX, &[0, 0, 0, 0]), vec![b, c, b, c]);
}

#[test]
fn details_without_reauth_count_as_transient() {
    let (mut pool, a, _b, _c) = pool_of_three(BalanceStrategy::RoundRobin);
    let details = FailureDetails::new(false, "rate limited");
    assert_eq!(pool.mark_unhealthy_with_details(a, &details, 5), Ok(()));
    assert_eq!(pool.credential(a).unwrap().status, CredentialStatus::Active);
    assert_eq!(pool.mark_unhealthy_with_details(a, &details, 6), Ok(()));
    assert_eq!(pool.credential(a).unwrap().status, CredentialStatus::Cooldown { until: 16 });
    assert_eq!(pool.report_failure(a, FailureClass::Transient, "again", 20), Ok(()));
    assert_eq!(pool.credential(a).unwrap().status, CredentialStatus::Cooldown { until: 40 });
}

#[test]
fn mark_healthy_ends_a_cooldown_at_once() {
    let (mut pool, a, _b, _c) = pool_of_three(BalanceStrategy::RoundRobin);
    pool.mark_unhealthy(a, "timeout", 1000).unwrap();
    pool.mark_unhealthy(a, "timeout", 1001).unwrap();
    assert_eq!(pool.mark_healthy(a, Some("gpt-4o")), Ok(()));
    let after = pool.credential(a).unwrap();
    assert_eq!(after.status, CredentialStatus::Active);
    assert_eq!(after.stats.consecutive_failures, 0);
    assert_eq!(after.stats.success_count, 1);
    assert_eq!(after.stats.failure_count, 2);
    assert_eq!(pool.select_credential("openai", None, 1001, 0).unwrap().id, a);
}

#[test]
fn enable_needs_an_explicit_call() {
    let (mut pool, a, _b, _c) = pool_of_three(BalanceStrategy::RoundRobin);
    pool.mark_unhealthy_with_details(a, &FailureDetails::new(true, "revoked"), 5).unwrap();
    pool.mark_healthy(a, None).unwrap();
    assert!(pool.credential(a).unwrap().status.is_disabled());
    assert_eq!(pool.enable(a), Ok(()));
    assert_eq!(pool.credential(a).unwrap().status, CredentialStatus::Active);
    assert_eq!(pool.enable(77), Err(PoolError::NotFound(77)));
}

#[test]
fn unknown_ids_are_reported_and_change_nothing() {
    let (mut pool, a, _b, _c) = pool_of_three(BalanceStrategy::RoundRobin);
    let before = pool.credential(a).unwrap();
    assert_eq!(pool.mark_healthy(99, None), Err(PoolError::NotFound(99)));
    assert_eq!(pool.mark_unhealthy(99, "x", 1), Err(PoolError::NotFound(99)));
    assert_eq!(
        pool.mark_unhealthy_with_details(99, &FailureDetails::new(true, "x"), 1),
        Err(PoolError::NotFound(99))
    );
    assert_eq!(pool.record_usage(99), Err(PoolError::NotFound(99)));
    assert_eq!(pool.cooldown_info(99, 1), Err(PoolError::NotFound(99)));
    assert_eq!(pool.credential(99), Err(PoolError::NotFound(99)));
    assert_eq!(pool.credential(a).unwrap(), before);
    assert!(pool.take_unsaved().is_empty());
}

#[test]
fn every_use_is_counted() {
    let (mut pool, a, b, _c) = pool_of_three(BalanceStrategy::RoundRobin);
    for _ in 0..250 {
        assert_eq!(pool.record_usage(a), Ok(()));
    }
    assert_eq!(pool.record_usage(b), Ok(()));
    assert_eq!(pool.credential(a).unwrap().stats.total_requests, 250);
    assert_eq!(pool.credential(b).unwrap().stats.total_requests, 1);
    assert_eq!(pool.credential(a).unwrap().stats.last_used_at, None);
    assert_eq!(pool.credential(a).unwrap().status, CredentialStatus::Active);
}

#[test]
fn least_recently_used_follows_the_stamps() {
    let (mut pool, a, b, c) = pool_of_three(BalanceStrategy::LeastRecentlyUsed);
    assert_eq!(selected(&mut pool, "openai", 10, &[0]), vec![a]);
    assert_eq!(selected(&mut pool, "openai", 11, &[0]), vec![b]);
    assert_eq!(selected(&mut pool, "openai", 12, &[0]), vec![c]);
    assert_eq!(selected(&mut pool, "openai", 13, &[0]), vec![a]);
    assert_eq!(selected(&mut pool, "openai", 13, &[0]), vec![b]);
    assert_eq!(selected(&mut pool, "openai", 13, &[0]), vec![c]);
    assert_eq!(selected(&mut pool, "openai", 13, &[0]), vec![a]);
}

#[test]
fn weighted_follows_the_success_rate() {
    let mut a = Credential::new(1, "openai", key("a"));
    a.stats.success_count = 1;
    let mut b = Credential::new(2, "openai", key("b"));
    b.stats.failure_count = 5;
    let mut c = Credential::new(3, "openai", key("c"));
    c.stats.success_count = 3;
    let mut pool =
        CredentialPool::with_credentials(config(), BalanceStrategy::WeightedBySuccessRate, &vec![c, a, b]);
    assert_eq!(
        selected(&mut pool, "openai", 1, &[0, 499_999, 500_000, 1_249_999, 1_250_000]),
        vec![1, 1, 3, 3, 1]
    );
}

#[test]
fn priority_prefers_the_highest_that_may_be_used() {
    let mut pool = CredentialPool::new(config(), BalanceStrategy::Priority);
    let low = pool.add_credential("openai", key("a"), Vec::new(), 1).unwrap();
    let high1 = pool.add_credential("openai", key("b"), Vec::new(), 5).unwrap();
    let high2 = pool.add_credential("openai", key("c"), Vec::new(), 5).unwrap();
    assert_eq!(selected(&mut pool, "openai", 1, &[0, 0, 0]), vec![high1, high2, high1]);
    pool.mark_unhealthy_with_details(high1, &FailureDetails::new(true, "gone"), 1).unwrap();
    pool.mark_unhealthy_with_details(high2, &FailureDetails::new(true, "gone"), 1).unwrap();
    assert_eq!(selected(&mut pool, "openai", 1, &[0, 0]), vec![low, low]);
}

#[test]
fn with_credentials_sorts_and_lets_the_later_stand() {
    let mut first = Credential::new(7, "openai", key("old"));
    first.stats.total_requests = 3;
    let second = Credential::new(2, "vertex", key("v"));
    let mut third = Credential::new(7, "openai", key("new"));
    third.status = CredentialStatus::Cooldown { until: 90 };
    let mut pool = CredentialPool::with_credentials(
        config(),
        BalanceStrategy::RoundRobin,
        &vec![first, second.clone(), third.clone()],
    );
    assert_eq!(pool.len(), 2);
    assert_eq!(pool.credential(7), Ok(third));
    assert_eq!(pool.credential(2), Ok(second));
    assert_eq!(pool.add_credential("openai", key("n"), Vec::new(), 0), Some(8));
    assert!(pool.take_unsaved().is_empty());
}

#[test]
fn no_id_is_left_after_the_largest() {
    let last = Credential::new(u64::MAX, "openai", key("z"));
    let mut pool =
        CredentialPool::with_credentials(config(), BalanceStrategy::RoundRobin, &vec![last]);
    assert_eq!(pool.add_credential("openai", key("n"), Vec::new(), 0), None);
    assert_eq!(pool.len(), 1);
    let mut empty = CredentialPool::with_credentials(config(), BalanceStrategy::RoundRobin, &Vec::new());
    assert_eq!(empty.add_credential("openai", key("n"), Vec::new(), 0), Some(0));
}

#[test]
fn reconfigure_swaps_tunables_and_strategy_together() {
    let (mut pool, a, _b, _c) = pool_of_three(BalanceStrategy::RoundRobin);
    let slow = HealthCheckConfig::new(1, 1000, 5000, 3).unwrap();
    pool.reconfigure(slow, BalanceStrategy::LeastRecentlyUsed);
    assert_eq!(pool.config(), slow);
    assert_eq!(pool.strategy(), BalanceStrategy::LeastRecentlyUsed);
    assert_eq!(pool.len(), 3);
    pool.mark_unhealthy(a, "timeout", 10).unwrap();
    assert_eq!(pool.credential(a).unwrap().status, CredentialStatus::Cooldown { until: 1010 });
    pool.mark_unhealthy(a, "timeout", 20).unwrap();
    assert_eq!(pool.credential(a).unwrap().status, CredentialStatus::Cooldown { until: 3020 });
    pool.mark_unhealthy(a, "timeout", 30).unwrap();
    assert_eq!(pool.credential(a).unwrap().status, CredentialStatus::Cooldown { until: 5030 });
}

#[test]
fn every_change_is_noted_for_writing() {
    let (mut pool, a, b, _c) = pool_of_three(BalanceStrategy::RoundRobin);
    assert!(pool.take_unsaved().is_empty());
    pool.select_credential("openai", None, 7, 0).unwrap();
    pool.record_usage(a).unwrap();
    pool.mark_unhealthy_with_details(b, &FailureDetails::new(true, "revoked"), 8).unwrap();
    pool.mark_healthy(a, None).unwrap();
    let stats = |total, success, failure, run, used| CredentialStats {
        total_requests: total,
        success_count: success,
        failure_count: failure,
        consecutive_failures: run,
        last_used_at: used,
    };
    assert_eq!(
        pool.take_unsaved(),
        vec![
            SyncRecord { id: a, status: CredentialStatus::Active, stats: stats(0, 0, 0, 0, Some(7)) },
            SyncRecord { id: a, status: CredentialStatus::Active, stats: stats(1, 0, 0, 0, Some(7)) },
            SyncRecord {
                id: b,
                status: CredentialStatus::Disabled { reason: "revoked".to_string() },
                stats: stats(0, 0, 1, 1, None),
            },
            SyncRecord { id: a, status: CredentialStatus::Active, stats: stats(1, 1, 0, 0, Some(7)) },
        ]
    );
    assert!(pool.take_unsaved().is_empty());
    assert_eq!(pool.credential(a).unwrap().stats, stats(1, 1, 0, 0, Some(7)));
}

#[test]
fn list_shows_one_provider() {
    let (mut pool, a, b, c) = pool_of_three(BalanceStrategy::RoundRobin);
    let v = pool.add_credential("vertex", key("v"), Vec::new(), 0).unwrap();
    pool.record_usage(b).unwrap();
    let openai: Vec<(u64, u64)> =
        pool.list("openai").iter().map(|x| (x.id, x.stats.total_requests)).collect();
    assert_eq!(openai, vec![(a, 0), (b, 1), (c, 0)]);
    assert_eq!(pool.list("vertex").iter().map(|x| x.id).collect::<Vec<u64>>(), vec![v]);
    assert!(pool.list("mistral").is_empty());
}
