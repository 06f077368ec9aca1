use credential_pool::credential::{
    BalanceStrategy, CooldownInfo, Credential, CredentialData, CredentialPool, CredentialStatus,
    CredentialSyncService, CredentialStats, HealthCheckConfig, PoolError, PoolStatus,
    ProviderStatus, SyncRecord,
};
use credential_pool::credential::summary::cooldown_info;

fn with_status(id: u64, provider: &str, status: CredentialStatus) -> Credential {
    let mut c = Credential::new(id, provider, CredentialData::ApiKey { secret: "k".to_string() });
    c.status = status;
    c
}

fn mixed_pool() -> CredentialPool {
    let disabled = || CredentialStatus::Disabled { reason: "revoked".to_string() };
    CredentialPool::with_credentials(
        HealthCheckConfig::new(2, 10, 100, 2).unwrap(),
        BalanceStrategy::RoundRobin,
        &vec![
            with_status(1, "vertex", CredentialStatus::Active),
            with_status(2, "openai", CredentialStatus::Cooldown { until: 50 }),
            with_status(3, "openai", CredentialStatus::Active),
            with_status(4, "vertex", disabled()),
            with_status(5, "openai", CredentialStatus::Cooldown { until: 80 }),
            with_status(6, "openai", disabled()),
            with_status(7, "mistral", CredentialStatus::Cooldown { until: 60 }),
        ],
    )
}

fn line(provider: &str, active: usize, cooldown: usize, disabled: usize) -> ProviderStatus {
    ProviderStatus { provider: provider.to_string(), active, cooldown, disabled }
}

#[test]
fn summary_counts_each_provider_as_it_stands_now() {
    let pool = mixed_pool();
    assert_eq!(
        pool.status_summary(None, 10),
        PoolStatus {
            providers: vec![line("vertex", 1, 0, 1), line("openai", 1, 2, 1), line("mistral", 0, 1, 0)]
        }
    );
    assert_eq!(
        pool.status_summary(None, 60),
        PoolStatus {
            providers: vec![line("vertex", 1, 0, 1), line("openai", 2, 1, 1), line("mistral", 1, 0, 0)]
        }
    );
}

#[test]
fn summary_of_one_provider_has_one_line() {
    let pool = mixed_pool();
    assert_eq!(
        pool.status_summary(Some("openai"), 79),
        PoolStatus { providers: vec![line("openai", 2, 1, 1)] }
    );
    assert_eq!(
        pool.status_summary(Some("openai"), 80),
        PoolStatus { providers: vec![line("openai", 3, 0, 1)] }
    );
    assert_eq!(
        pool.status_summary(Some("nobody"), 80),
        PoolStatus { providers: vec![line("nobody", 0, 0, 0)] }
    );
}

#[test]
fn summary_counts_add_up_to_the_credentials() {
    let pool = mixed_pool();
    for now in [0, 49, 50, 59, 60, 79, 80, u64::MAX] {
        let summary = pool.status_summary(None, now);
        let totals: Vec<(String, usize)> = summary
            .providers
            .iter()
            .map(|l| (l.provider.clone(), l.active + l.cooldown + l.disabled))
            .collect();
        assert_eq!(
            totals,
            vec![("vertex".to_string(), 2), ("openai".to_string(), 4), ("mistral".to_string(), 1)]
        );
    }
}

#[test]
fn summary_of_an_empty_pool_is_empty() {
    let pool = CredentialPool::new(
        HealthCheckConfig::new(2, 10, 100, 2).unwrap(),
        BalanceStrategy::RoundRobin,
    );
    assert_eq!(pool.status_summary(None, 5), PoolStatus { providers: Vec::new() });
}

#[test]
fn cooldown_info_is_what_the_clock_leaves() {
    let pool = mixed_pool();
    assert_eq!(pool.cooldown_info(2, 10), Ok(Some(CooldownInfo { credential_id: 2, remaining: 40 })));
    assert_eq!(pool.cooldown_info(2, 49), Ok(Some(CooldownInfo { credential_id: 2, remaining: 1 })));
    assert_eq!(pool.cooldown_info(2, 50), Ok(None));
    assert_eq!(pool.cooldown_info(2, 51), Ok(None));
    assert_eq!(pool.cooldown_info(3, 10), Ok(None));
    assert_eq!(pool.cooldown_info(4, 10), Ok(None));
    assert_eq!(pool.cooldown_info(8, 10), Err(PoolError::NotFound(8)));
    let c = with_status(9, "openai", CredentialStatus::Cooldown { until: u64::MAX });
    assert_eq!(cooldown_info(&c, 0), Some(CooldownInfo { credential_id: 9, remaining: u64::MAX }));
}

#[test]
fn the_outbox_hands_out_records_oldest_first() {
    let mut outbox = CredentialSyncService::new();
    assert_eq!(outbox.pending_len(), 0);
    let stats = CredentialStats {
        total_requests: 1,
        success_count: 2,
        failure_count: 3,
        consecutive_failures: 4,
        last_used_at: Some(5),
    };
    outbox.persist(8, CredentialStatus::Active, stats);
    outbox.persist(3, CredentialStatus::Cooldown { until: 9 }, stats);
    assert_eq!(outbox.pending_len(), 2);
    assert_eq!(
        outbox.take_pending(),
        vec![
            SyncRecord { id: 8, status: CredentialStatus::Active, stats },
            SyncRecord { id: 3, status: CredentialStatus::Cooldown { until: 9 }, stats },
        ]
    );
    assert_eq!(outbox.pending_len(), 0);
    assert!(outbox.take_pending().is_empty());
}
