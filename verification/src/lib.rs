//! Event-streaming relay: synthetic event generation, a JSON wire codec,
//! a bounded-concurrency publish coordinator, a transform-and-republish
//! relay, and idempotent topology provisioning.

pub mod batch;
pub mod clock;
pub mod codec;
pub mod event;
pub mod provision;
pub mod randomness;
pub mod relay;

pub use event::Event;
pub use event::TransformedEvent;
