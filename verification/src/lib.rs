//! Accounting engine of a civic eco-rewards programme: an identity registry,
//! the validation of government identifiers, a log of reported ecological
//! actions with their rewards, and the ledger of a fungible reward token.
//!
//! Every operation works on an explicit state value and is verified against a
//! mathematical model of that state.

pub mod auth;
pub mod eco_model;
pub mod eco_prado;
pub mod journal;
pub mod pradonsitos_token;
pub mod records;
pub mod rewards;
pub mod store;
pub mod sums;
pub mod text;
pub mod token_model;
pub mod verification;

pub use auth::{AuthorizationError, Authorizer};
pub use eco_prado::EcoPradoContract;
pub use pradonsitos_token::{PradonsitosToken, Redemption};
pub use records::{Action, ActionStatus, UserInfo, VerificationStatus};
pub use verification::VerificationData;
