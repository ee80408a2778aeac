use vstd::prelude::*;

verus! {

/// Failures that the library reports.
#[derive(Debug, Clone, Copy, PartialEq, Eq, Structural)]
pub enum Error {
    /// A configured address is not six colon-separated two-digit hexadecimal octets.
    MalformedAddress,
    /// A readings payload holds fewer than nine bytes.
    ShortPayload,
    /// The connected device exposes no current-readings characteristic.
    NoReadingsCharacteristic,
    /// No configured device became reachable within the search timeout.
    DeviceSearchTimeout,
    /// The device dropped its connection and could not be reconnected.
    ConnectionLost,
}

} // verus!
