//! Fan-out of a live sample stream to a dynamic set of subscribers.
//!
//! The crate has three parts: a container framer that produces the
//! self-describing preamble and the per-sample wire encoding, a subscription
//! registry that tracks each subscriber's egress channel, and a broadcast
//! stage that delivers every input item to every live subscriber once per
//! scheduler invocation.  An integer-phase controlled oscillator is included
//! as the upstream sample producer abstraction.

pub mod channel;
pub mod framer;
pub mod oscillator;
pub mod registry;
pub mod stage;
