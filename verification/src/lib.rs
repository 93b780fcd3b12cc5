//! Core of a user-account backend: password digests, signed session tokens,
//! identity resolution from request credentials, and role-gated access
//! decisions. Surrounding plumbing (HTTP routing, persistence) stays outside;
//! it talks to this crate through plain values.

pub mod errors;
pub mod flows;
pub mod guard;
pub mod hexfmt;
pub mod identity;
pub mod password;
pub mod roles;
pub mod token;

pub use errors::AuthError;
pub use guard::GuardDecision;
pub use identity::LookupOutcome;
pub use identity::UserRecord;
pub use roles::Role;
pub use roles::RoleSet;
pub use token::TokenError;
