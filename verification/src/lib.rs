//! Snowflake identifiers: time-ordered 64-bit ids with a compact,
//! sortable Crockford base-32 text form.

pub mod clock;
pub mod codec;
pub mod config;
pub mod counter;
pub mod flake;
pub mod service;

pub use clock::{clamp_ms, now_in_ms, Epoch};
pub use codec::{chunk, encode_token};
pub use config::{parse_epoch, ConfigError, DEFAULT_EPOCH_TEXT, DEFAULT_NODE_ID};
pub use counter::Counter;
pub use flake::Snowflake;
pub use service::{json_string_body, RequestMethod, ServiceResponse, SnowflakeState};
