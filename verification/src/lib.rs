//! A streaming greeter core: every accepted send request is acknowledged with
//! a greeting, appended to a message store, and fanned out to all live feed
//! subscriptions through a bounded, best-effort broadcast hub.

pub mod broadcaster;
pub mod classifier;
pub mod greeter;
pub mod greeting;
pub mod relay;
pub mod store;
