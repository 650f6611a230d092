//! A billing subsystem: it issues and validates opaque API-key credentials
//! tied to payments, and manages the lifecycle of payment records against
//! pluggable payment providers, over a single in-memory state that can be
//! serialized to and restored from a JSON snapshot.

pub mod api_keys;
mod clock;
pub mod codec;
pub mod error;
pub mod hexstr;
pub mod laws;
pub mod models;
pub mod providers;
pub mod service;
pub mod store;
mod rng;
mod strutil;

pub use api_keys::ApiKeyManager;
pub use error::{BillingError, PaymentError};
pub use providers::{build_processor_map, HostedCheckoutProcessor, PaymentProcessor};
pub use store::BillingStore;
pub use service::BillingService;
pub use models::{
    ApiKeyRecord, ApiTier, BillingState, IssuedApiKey, PaymentIntent, PaymentProviderConfig,
    PaymentProviderKind, PaymentRecord, PaymentRequest, PaymentStatus,
};
