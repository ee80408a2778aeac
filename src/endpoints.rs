use vstd::prelude::*;

use crate::error::Error;
use crate::reading::{decode_current_reading, reading_of, CurrentReading, PAYLOAD_LEN};

verus! {

/// Battery service (Bluetooth SIG), firmware 1.2.0 and later.
pub const SERVICE_BATTERY: u128 = 0x0000180f_0000_1000_8000_00805f9b34fb;
/// Battery level characteristic (Bluetooth SIG).
pub const CHAR_BATTERY_LEVEL: u128 = 0x00002a19_0000_1000_8000_00805f9b34fb;
/// SAF Tehnika vendor service, firmware 1.2.0 and later.
pub const SERVICE_SAF_TEHNIKA: u128 = 0x0000fce0_0000_1000_8000_00805f9b34fb;
pub const CHAR_SENSOR_STATE: u128 = 0xf0cd1401_95da_4f4b_9ac8_aa55d312af0c;
pub const CHAR_CMD: u128 = 0xf0cd1402_95da_4f4b_9ac8_aa55d312af0c;
pub const CHAR_CALIBRATION_DATA: u128 = 0xf0cd1502_95da_4f4b_9ac8_aa55d312af0c;
pub const CHAR_CURRENT_READINGS: u128 = 0xf0cd1503_95da_4f4b_9ac8_aa55d312af0c;
/// Aranet2 only.
pub const CHAR_CURRENT_READINGS_AR2: u128 = 0xf0cd1504_95da_4f4b_9ac8_aa55d312af0c;
pub const CHAR_TOTAL_READINGS: u128 = 0xf0cd2001_95da_4f4b_9ac8_aa55d312af0c;
pub const CHAR_INTERVAL: u128 = 0xf0cd2002_95da_4f4b_9ac8_aa55d312af0c;
pub const CHAR_HISTORY_READINGS_V1: u128 = 0xf0cd2003_95da_4f4b_9ac8_aa55d312af0c;
pub const CHAR_SECONDS_SINCE_UPDATE: u128 = 0xf0cd2004_95da_4f4b_9ac8_aa55d312af0c;
pub const CHAR_HISTORY_READINGS_V2: u128 = 0xf0cd2005_95da_4f4b_9ac8_aa55d312af0c;
pub const CHAR_CURRENT_READINGS_DET: u128 = 0xf0cd3001_95da_4f4b_9ac8_aa55d312af0c;
pub const CHAR_CURRENT_READINGS_A: u128 = 0xf0cd3002_95da_4f4b_9ac8_aa55d312af0c;
/// Aranet2 only.
pub const CHAR_CURRENT_READINGS_A_AR2: u128 = 0xf0cd3003_95da_4f4b_9ac8_aa55d312af0c;

/// Number of logical endpoints.
pub const ENDPOINT_COUNT: usize = 14;

/// The logical endpoints that a sensor may expose.
#[derive(Debug, Clone, Copy, PartialEq, Eq, Structural)]
pub enum Endpoint {
    BatteryLevel,
    SensorState,
    Cmd,
    CalibrationData,
    CurrentReadings,
    CurrentReadingsAr2,
    TotalReadings,
    Interval,
    HistoryReadingsV1,
    SecondsSinceUpdate,
    HistoryReadingsV2,
    CurrentReadingsDet,
    CurrentReadingsA,
    CurrentReadingsAAr2,
}

/// The slot of an endpoint in a table.
pub open spec fn endpoint_index(e: Endpoint) -> int {
    match e {
        Endpoint::BatteryLevel => 0,
        Endpoint::SensorState => 1,
        Endpoint::Cmd => 2,
        Endpoint::CalibrationData => 3,
        Endpoint::CurrentReadings => 4,
        Endpoint::CurrentReadingsAr2 => 5,
        Endpoint::TotalReadings => 6,
        Endpoint::Interval => 7,
        Endpoint::HistoryReadingsV1 => 8,
        Endpoint::SecondsSinceUpdate => 9,
        Endpoint::HistoryReadingsV2 => 10,
        Endpoint::CurrentReadingsDet => 11,
        Endpoint::CurrentReadingsA => 12,
        Endpoint::CurrentReadingsAAr2 => 13,
    }
}

/// The endpoint that a characteristic of the vendor service stands for, if any.
pub open spec fn vendor_endpoint(characteristic: u128) -> Option<Endpoint> {
    if characteristic == CHAR_SENSOR_STATE {
        Some(Endpoint::SensorState)
    } else if characteristic == CHAR_CMD {
        Some(Endpoint::Cmd)
    } else if characteristic == CHAR_CALIBRATION_DATA {
        Some(Endpoint::CalibrationData)
    } else if characteristic == CHAR_CURRENT_READINGS {
        Some(Endpoint::CurrentReadings)
    } else if characteristic == CHAR_CURRENT_READINGS_AR2 {
        Some(Endpoint::CurrentReadingsAr2)
    } else if characteristic == CHAR_TOTAL_READINGS {
        Some(Endpoint::TotalReadings)
    } else if characteristic == CHAR_INTERVAL {
        Some(Endpoint::Interval)
    } else if characteristic == CHAR_HISTORY_READINGS_V1 {
        Some(Endpoint::HistoryReadingsV1)
    } else if characteristic == CHAR_SECONDS_SINCE_UPDATE {
        Some(Endpoint::SecondsSinceUpdate)
    } else if characteristic == CHAR_HISTORY_READINGS_V2 {
        Some(Endpoint::HistoryReadingsV2)
    } else if characteristic == CHAR_CURRENT_READINGS_DET {
        Some(Endpoint::CurrentReadingsDet)
    } else if characteristic == CHAR_CURRENT_READINGS_A {
        Some(Endpoint::CurrentReadingsA)
    } else if characteristic == CHAR_CURRENT_READINGS_A_AR2 {
        Some(Endpoint::CurrentReadingsAAr2)
    } else {
        None
    }
}

/// The endpoint that a (service, characteristic) pair stands for, if any: the battery
/// level under the battery service, and the vendor characteristics under the vendor
/// service. Every other pair stands for none.
pub open spec fn endpoint_of(service: u128, characteristic: u128) -> Option<Endpoint> {
    if service == SERVICE_BATTERY && characteristic == CHAR_BATTERY_LEVEL {
        Some(Endpoint::BatteryLevel)
    } else if service == SERVICE_SAF_TEHNIKA {
        vendor_endpoint(characteristic)
    } else {
        None
    }
}

impl Endpoint {
    pub fn index(&self) -> (r: usize)
        ensures
            r as int == endpoint_index(*self),
            r < ENDPOINT_COUNT,
    {
        match self {
            Endpoint::BatteryLevel => 0,
            Endpoint::SensorState => 1,
            Endpoint::Cmd => 2,
            Endpoint::CalibrationData => 3,
            Endpoint::CurrentReadings => 4,
            Endpoint::CurrentReadingsAr2 => 5,
            Endpoint::TotalReadings => 6,
            Endpoint::Interval => 7,
            Endpoint::HistoryReadingsV1 => 8,
            Endpoint::SecondsSinceUpdate => 9,
            Endpoint::HistoryReadingsV2 => 10,
            Endpoint::CurrentReadingsDet => 11,
            Endpoint::CurrentReadingsA => 12,
            Endpoint::CurrentReadingsAAr2 => 13,
        }
    }
}

/// Names the endpoint of a (service, characteristic) pair; pairs outside the known
/// set, such as the generic access and device information services, name none.
pub fn resolve_pair(service: u128, characteristic: u128) -> (r: Option<Endpoint>)
    ensures
        r == endpoint_of(service, characteristic),
{
    let r = if service == SERVICE_BATTERY {
        if characteristic == CHAR_BATTERY_LEVEL {
            Some(Endpoint::BatteryLevel)
        } else {
            None
        }
    } else if service == SERVICE_SAF_TEHNIKA {
        if characteristic == CHAR_SENSOR_STATE {
            Some(Endpoint::SensorState)
        } else if characteristic == CHAR_CMD {
            Some(Endpoint::Cmd)
        } else if characteristic == CHAR_CALIBRATION_DATA {
            Some(Endpoint::CalibrationData)
        } else if characteristic == CHAR_CURRENT_READINGS {
            Some(Endpoint::CurrentReadings)
        } else if characteristic == CHAR_CURRENT_READINGS_AR2 {
            Some(Endpoint::CurrentReadingsAr2)
        } else if characteristic == CHAR_TOTAL_READINGS {
            Some(Endpoint::TotalReadings)
        } else if characteristic == CHAR_INTERVAL {
            Some(Endpoint::Interval)
        } else if characteristic == CHAR_HISTORY_READINGS_V1 {
            Some(Endpoint::HistoryReadingsV1)
        } else if characteristic == CHAR_SECONDS_SINCE_UPDATE {
            Some(Endpoint::SecondsSinceUpdate)
        } else if characteristic == CHAR_HISTORY_READINGS_V2 {
            Some(Endpoint::HistoryReadingsV2)
        } else if characteristic == CHAR_CURRENT_READINGS_DET {
            Some(Endpoint::CurrentReadingsDet)
        } else if characteristic == CHAR_CURRENT_READINGS_A {
            Some(Endpoint::CurrentReadingsA)
        } else if characteristic == CHAR_CURRENT_READINGS_A_AR2 {
            Some(Endpoint::CurrentReadingsAAr2)
        } else {
            None
        }
    } else {
        None
    };
    r
}

/// Position, in an enumeration of (service, characteristic) pairs, of the last pair
/// that stands for `e`.
pub open spec fn last_match(pairs: Seq<(u128, u128)>, e: Endpoint) -> Option<nat>
    decreases pairs.len(),
{
    if pairs.len() == 0 {
        None
    } else if endpoint_of(pairs.last().0, pairs.last().1) == Some(e) {
        Some((pairs.len() - 1) as nat)
    } else {
        last_match(pairs.drop_last(), e)
    }
}

/// A position held in a table, as a natural number.
pub open spec fn position(o: Option<usize>) -> Option<nat> {
    match o {
        Some(k) => Some(k as nat),
        None => None,
    }
}

/// A device's endpoints: for each logical endpoint, the position of its characteristic
/// in the enumeration that the table was built from, or nothing where the device's
/// firmware lacks it.
#[derive(Debug)]
pub struct EndPoints {
    slots: Vec<Option<usize>>,
}

impl EndPoints {
    pub closed spec fn wf(&self) -> bool {
        self.slots@.len() == ENDPOINT_COUNT
    }

    /// Where the table finds endpoint `e`.
    pub closed spec fn slot(&self, e: Endpoint) -> Option<nat> {
        position(self.slots@[endpoint_index(e)])
    }

    /// A table with no endpoint present.
    pub fn empty() -> (t: EndPoints)
        ensures
            t.wf(),
            forall|e: Endpoint| #[trigger] t.slot(e) == None::<nat>,
    {
        let mut slots: Vec<Option<usize>> = Vec::new();
        let mut i: usize = 0;
        while i < ENDPOINT_COUNT
            invariant
                i <= ENDPOINT_COUNT,
                slots@.len() == i,
                forall|k: int| 0 <= k < i ==> slots@[k] == None::<usize>,
            decreases ENDPOINT_COUNT - i,
        {
            slots.push(None);
            i = i + 1;
        }
        EndPoints { slots }
    }

    /// Builds the table from one walk over the device's (service, characteristic) pairs,
    /// in the order the device enumerated them. Unknown pairs are skipped; where a pair
    /// repeats, the last one wins.
    pub fn build(pairs: &[(u128, u128)]) -> (t: EndPoints)
        ensures
            t.wf(),
            forall|e: Endpoint|
                #[trigger] t.slot(e) == last_match(pairs@, e),
    {
        let mut t = EndPoints::empty();
        let mut i: usize = 0;
        while i < pairs.len()
            invariant
                i <= pairs@.len(),
                t.wf(),
                forall|e: Endpoint|
                    #[trigger] t.slot(e) == last_match(pairs@.take(i as int), e),
            decreases pairs@.len() - i,
        {
            let (service, characteristic) = pairs[i];
            let ghost before = t;
            let found = resolve_pair(service, characteristic);
            if let Some(e) = found {
                let k = e.index();
                t.slots.set(k, Some(i));
            }
            proof {
                let next = pairs@.take(i + 1);
                assert(next.drop_last() =~= pairs@.take(i as int));
                assert(next.last() == pairs@[i as int]);
                assert forall|x: Endpoint|
                    #[trigger] t.slot(x) == last_match(next, x) by {
                    if found == Some(x) {
                        assert(last_match(next, x) == Some(i as nat));
                    } else {
                        assert(last_match(next, x) == last_match(next.drop_last(), x));
                        match found {
                            Some(e) => {
                                assert(endpoint_index(e) != endpoint_index(x));
                            },
                            None => {},
                        }
                        assert(t.slot(x) == before.slot(x));
                    }
                }
            }
            i = i + 1;
        }
        proof {
            assert(pairs@.take(pairs@.len() as int) =~= pairs@);
        }
        t
    }

    /// Where the table finds endpoint `e`, if the device has it.
    pub fn get(&self, e: Endpoint) -> (r: Option<usize>)
        requires
            self.wf(),
        ensures
            position(r) == self.slot(e),
    {
        self.slots[e.index()]
    }

    /// The current-readings endpoint, which a session cannot do without.
    pub fn readings_endpoint(&self) -> (r: Result<usize, Error>)
        requires
            self.wf(),
        ensures
            r is Ok <==> self.slot(Endpoint::CurrentReadings) is Some,
            r is Ok ==> self.slot(Endpoint::CurrentReadings) == Some(r->Ok_0 as nat),
            r is Err ==> r->Err_0 == Error::NoReadingsCharacteristic,
    {
        match self.get(Endpoint::CurrentReadings) {
            Some(k) => Ok(k),
            None => Err(Error::NoReadingsCharacteristic),
        }
    }
    /// Decodes a payload read from the current-readings characteristic. A table without
    /// that characteristic cannot produce a reading.
    pub fn read(&self, payload: &[u8]) -> (r: Result<CurrentReading, Error>)
        requires
            self.wf(),
        ensures
            self.slot(Endpoint::CurrentReadings) is None ==> r == Err::<CurrentReading, Error>(
                Error::NoReadingsCharacteristic,
            ),
            self.slot(Endpoint::CurrentReadings) is Some ==> r == if payload@.len() >= PAYLOAD_LEN {
                Ok(reading_of(payload@))
            } else {
                Err(Error::ShortPayload)
            },
    {
        match self.readings_endpoint() {
            Ok(_) => decode_current_reading(payload),
            Err(e) => Err(e),
        }
    }
}

/// Builds a device's endpoint table from the (service, characteristic) pairs of one walk
/// over its services, in the order the device enumerated them.
pub fn map_device_endpoints(pairs: &[(u128, u128)]) -> (t: EndPoints)
    ensures
        t.wf(),
        forall|e: Endpoint| #[trigger] t.slot(e) == last_match(pairs@, e),
{
    EndPoints::build(pairs)
}

} // verus!
