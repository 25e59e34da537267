//! The session core of a real-time chat client: it consumes inbound protocol
//! events, keeps a local cache in step with them, tracks which derived views
//! have gone stale ("damage"), answers fuzzy searches over channel names, and
//! serialises outbound write operations so at most one is in flight at a time.
//! Rendering, input decoding and transport live outside this crate.

pub mod damage;
pub mod queue;
pub mod channel_map;
pub mod config;
pub mod identify;
pub mod session;
pub mod span;
pub mod text;

pub use channel_map::ChannelMap;
pub use channel_map::ChannelRecord;
pub use damage::Aspect;
pub use damage::CacheDamage;
pub use queue::ResponseQueue;
pub use session::CacheEvent;
pub use session::Client;
