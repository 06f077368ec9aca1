//! The credential pool and the parts it is built from.

pub mod balancer;
pub mod health;
pub mod laws;
pub mod pool;
pub mod registry;
pub mod summary;
pub mod sync;
pub mod types;

pub use types::{
    Credential, CredentialData, CredentialDataView, CredentialStats, CredentialStatus,
    CredentialView, StatusView,
};
pub use health::{FailureClass, FailureDetails, HealthCheckConfig, HealthChecker};
pub use balancer::{BalanceStrategy, Candidate, LoadBalancer};
pub use registry::CredentialRegistry;
pub use sync::{CredentialSyncService, SyncRecord};
pub use pool::{CredentialPool, PoolError, PoolView};
pub use summary::{CooldownInfo, PoolStatus, ProviderStatus};
