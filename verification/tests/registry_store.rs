use credential_pool::credential::{
    Credential, CredentialData, CredentialRegistry, CredentialStatus, PoolError,
};

fn key(id: u64, provider: &str) -> Credential {
    Credential::new(id, provider, CredentialData::ApiKey { secret: format!("secret-{}", id) })
}

fn ids(registry: &CredentialRegistry) -> Vec<u64> {
    (0..registry.len()).map(|i| registry.at(i).id).collect()
}

#[test]
fn a_new_credential_is_active_and_unused() {
    let c = key(4, "openai");
    assert_eq!(c.id, 4);
    assert_eq!(c.provider, "openai");
    assert_eq!(c.status, CredentialStatus::Active);
    assert_eq!(c.stats.total_requests, 0);
    assert_eq!(c.stats.success_count, 0);
    assert_eq!(c.stats.failure_count, 0);
    assert_eq!(c.stats.consecutive_failures, 0);
    assert_eq!(c.stats.last_used_at, None);
    assert!(c.tags.is_empty());
    assert_eq!(c.priority, 0);
}

#[test]
fn a_copy_is_equal_to_the_credential() {
    let mut c = Credential::new(
        4,
        "vertex",
        CredentialData::OAuth {
            token_file: "/tokens/a.json".to_string(),
            project_id: Some("proj".to_string()),
        },
    );
    c.tags = vec!["eu".to_string(), "batch".to_string()];
    c.priority = 3;
    c.status = CredentialStatus::Disabled { reason: "revoked".to_string() };
    c.stats.last_used_at = Some(12);
    assert_eq!(c.clone(), c);
}

#[test]
fn the_secret_is_handed_out_by_its_kind() {
    let api = key(1, "openai");
    assert_eq!(api.api_key(), Ok(&"secret-1".to_string()));
    assert_eq!(api.oauth(), Err(PoolError::InvalidCredentialVariant));
    let oauth = Credential::new(
        2,
        "vertex",
        CredentialData::OAuth { token_file: "t.json".to_string(), project_id: None },
    );
    assert_eq!(oauth.oauth(), Ok((&"t.json".to_string(), &None)));
    assert_eq!(oauth.api_key(), Err(PoolError::InvalidCredentialVariant));
}

#[test]
fn tags_and_provider_decide_a_match() {
    let mut c = key(1, "openai");
    c.tags = vec!["eu".to_string(), "batch".to_string()];
    assert!(c.has_tag(&"eu".to_string()));
    assert!(c.has_tag(&"batch".to_string()));
    assert!(!c.has_tag(&"us".to_string()));
    assert!(!c.has_tag(&"".to_string()));
    assert!(c.matches(&"openai".to_string(), &None));
    assert!(c.matches(&"openai".to_string(), &Some("batch".to_string())));
    assert!(!c.matches(&"openai".to_string(), &Some("us".to_string())));
    assert!(!c.matches(&"vertex".to_string(), &None));
    assert!(!c.matches(&"vertex".to_string(), &Some("eu".to_string())));
}

#[test]
fn upsert_keeps_ascending_order() {
    let mut registry = CredentialRegistry::new();
    assert_eq!(registry.len(), 0);
    for id in [5, 1, 9, 3, 7] {
        assert_eq!(registry.upsert(key(id, "openai")), None);
    }
    assert_eq!(ids(&registry), vec![1, 3, 5, 7, 9]);
    assert_eq!(registry.upsert(key(0, "openai")), None);
    assert_eq!(registry.upsert(key(u64::MAX, "openai")), None);
    assert_eq!(ids(&registry), vec![0, 1, 3, 5, 7, 9, u64::MAX]);
}

#[test]
fn upsert_replaces_the_credential_with_the_same_id() {
    let mut registry = CredentialRegistry::new();
    registry.upsert(key(1, "openai"));
    registry.upsert(key(2, "openai"));
    let mut newer = key(1, "openai");
    newer.priority = 8;
    assert_eq!(registry.upsert(newer.clone()), Some(key(1, "openai")));
    assert_eq!(registry.len(), 2);
    assert_eq!(registry.get(1), Some(&newer));
    assert_eq!(registry.get(2), Some(&key(2, "openai")));
}

#[test]
fn get_and_position_find_by_id() {
    let mut registry = CredentialRegistry::new();
    for id in [10, 20, 30] {
        registry.upsert(key(id, "openai"));
    }
    assert_eq!(registry.position(10), Some(0));
    assert_eq!(registry.position(30), Some(2));
    assert_eq!(registry.position(25), None);
    assert_eq!(registry.get(20).map(|c| c.id), Some(20));
    assert_eq!(registry.get(21), None);
    assert_eq!(registry.at(1).id, 20);
}

#[test]
fn remove_takes_out_one() {
    let mut registry = CredentialRegistry::new();
    for id in [10, 20, 30] {
        registry.upsert(key(id, "openai"));
    }
    assert_eq!(registry.remove(20), Some(key(20, "openai")));
    assert_eq!(registry.remove(20), None);
    assert_eq!(ids(&registry), vec![10, 30]);
    assert_eq!(registry.remove(10).map(|c| c.id), Some(10));
    assert_eq!(registry.remove(30).map(|c| c.id), Some(30));
    assert_eq!(registry.len(), 0);
    assert_eq!(registry.remove(30), None);
}

#[test]
fn list_gives_one_provider_in_order_of_id() {
    let mut registry = CredentialRegistry::new();
    registry.upsert(key(4, "vertex"));
    registry.upsert(key(2, "openai"));
    registry.upsert(key(3, "vertex"));
    registry.upsert(key(1, "openai"));
    registry.upsert(key(5, "openai"));
    let openai: Vec<u64> = registry.list("openai").iter().map(|c| c.id).collect();
    assert_eq!(openai, vec![1, 2, 5]);
    assert_eq!(registry.list("vertex"), vec![key(3, "vertex"), key(4, "vertex")]);
    assert!(registry.list("mistral").is_empty());
    assert!(registry.list("").is_empty());
}
