//! Rust client for the kwtSMS API (kwtsms.com): the verified core.
//!
//! Phone-number normalization and validation, message cleaning, the API
//! error-code table, and the decisions that the client takes around its
//! HTTP calls.

pub mod errors;
pub mod json;
pub mod message;
pub mod phone;
pub mod phone_rules;
pub mod text;

pub use errors::{enrich_error, KwtSmsError, API_ERRORS};
pub use message::clean_message;
pub use phone::{find_country_code, normalize_phone, validate_phone_format, validate_phone_input};
pub use phone_rules::{phone_rules, PhoneRule};
pub mod client;
pub mod types;
pub mod env;
pub mod logger;
pub mod replies;
pub mod request;
