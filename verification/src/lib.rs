//! Rate limiting policies for a small TCP proxy: a token bucket, a fixed
//! window counter, a leaky bucket queue and a poll-ticket queue with its
//! client, together with the byte protocol that the ticket queue speaks.

pub mod exchange;
pub mod fixed_window;
pub mod leaky_bucket;
pub mod polling_client;
pub mod protocol;
pub mod queue;
pub mod token_bucket;
pub mod wire;
