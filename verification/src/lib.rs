//! Verified core of a ContextVM transport: MCP messages carried over Nostr events.

pub mod constants;
pub mod json;
pub mod json_text;
pub mod keys;
pub mod lru_cache;
pub mod message;
pub mod recency_map;
pub mod seen_ids;
pub mod signed_event;
pub mod tag;
pub mod text;
pub mod text_map;
pub mod text_set;
pub mod transport;
pub mod types;
