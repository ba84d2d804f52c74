//! The producer side of a message-queue client.
//!
//! `codec` frames requests and reads the broker's replies; `pool` tracks the
//! connections to the broker's endpoints; `send` decides, event by event,
//! what one send does next, with the retry rules of `retry`; `producer`
//! configures producers and starts sends. The caller performs the network
//! work that the actions name and reports what happened as events.
pub mod codec;
pub mod error;
pub mod message;
pub mod pool;
pub mod producer;
pub mod retry;
pub mod send;

pub use error::ClientError;
pub use message::Message;
pub use producer::{Producer, ProducerBuilder, SendReceipt};
