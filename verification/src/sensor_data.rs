//! Readings that the sensor tasks hand to the uplink.
use vstd::prelude::*;

verus! {

/// One DHT11 reading: temperature in °C and relative humidity in %.
#[derive(Clone, Copy, Debug, PartialEq, Eq)]
pub struct DhtData {
    pub temperature: u8,
    pub humidity: u8,
}

} // verus!
