//! Identity of one observable fact about a peripheral.
//!
//! Service and characteristic identifiers are canonical numeric handles
//! assigned once at discovery time; they are stable for the life of a
//! connection and never an address into native-stack memory.  Peripherals
//! carrying two services with the same type identifier are not further
//! disambiguated; such duplicates share one key.

use vstd::prelude::*;

verus! {

/// One observable fact about a peripheral, used as an event-log key.
#[derive(Clone, Copy, PartialEq, Eq, Structural, Debug, Hash)]
pub enum EventKey {
    /// The peripheral's service list has been discovered (one per peripheral).
    ServicesDiscovered,
    /// The included services of the given service have been discovered.
    IncludedServicesDiscovered(u64),
    /// The characteristics of the given service have been discovered.
    CharacteristicsDiscovered(u64),
    /// The given characteristic's value was read or pushed by notification.
    ValueUpdated(u64),
    /// A write to the given characteristic was confirmed.
    ValueWritten(u64),
}

} // verus!
