//! A blocking-client bridge over an asynchronous BLE GATT host stack.
//!
//! The host stack reports scan results, connections and discovery outcomes
//! through unordered callbacks on a thread of its own.  This crate holds the
//! verified core that turns those callbacks into state a synchronous caller
//! can query: a keyed registry of per-peripheral records, an event normalizer
//! that maps each native callback to a registry mutation plus follow-up
//! discovery requests, and a wait/poll primitive that decides when a blocking
//! caller may stop waiting.
//!
//! Everything that touches the native stack itself (callback delivery,
//! clocks, sleeping) lives outside this crate and hands in plain values.

pub mod bridge;
pub mod dispatch;
pub mod guarantees;
pub mod keys;
pub mod record;
pub mod registry;

pub use bridge::BridgeError;
pub use bridge::WaitStep;
pub use dispatch::NativeEvent;
pub use dispatch::NativeRequest;
pub use keys::EventKey;
pub use record::AdvertisementSnapshot;
pub use record::EventLog;
pub use record::PeripheralRecord;
pub use registry::PeripheralRegistry;
