use vstd::prelude::*;

use crate::reading::CurrentReading;

verus! {

/// Gauge for CO2 in ppm.
pub const METRIC_CO2: &'static str = "aranet_co2";
/// Gauge for the temperature in degrees Fahrenheit.
pub const METRIC_TEMP_FAHRENHEIT: &'static str = "aranet_temp_fahrenheit";
/// Gauge for the temperature in degrees Celsius.
pub const METRIC_TEMP_CELSIUS: &'static str = "aranet_temp_celsius";
/// Gauge for relative humidity in percent.
pub const METRIC_RELATIVE_HUMIDITY: &'static str = "aranet_relative_humidity";
/// Gauge for air pressure in hectopascals.
pub const METRIC_PRESSURE: &'static str = "aranet_preasure";
/// Gauge for battery charge in percent.
pub const METRIC_BATTERY: &'static str = "aranet_bat";

/// The values that one reading publishes, one per gauge. The two temperatures are in
/// hundredths of a degree and the pressure in tenths of a hectopascal; the exporter
/// scales them to its floating-point gauges.
#[derive(Debug, Clone, Copy, PartialEq, Eq, Structural)]
pub struct MetricSample {
    pub co2: i64,
    pub temp_fahrenheit_centi: i64,
    pub temp_celsius_centi: i64,
    pub relative_humidity: i64,
    pub pressure_deci_hpa: i64,
    pub battery: i64,
}

/// What a reading publishes; each publication replaces the previous values.
pub open spec fn sample_of(r: CurrentReading) -> MetricSample {
    MetricSample {
        co2: r.c02 as i64,
        temp_fahrenheit_centi: (9 * r.temp@ + 3200) as i64,
        temp_celsius_centi: (5 * r.temp@) as i64,
        relative_humidity: r.humidity as i64,
        pressure_deci_hpa: r.preasure as i64,
        battery: r.bat as i64,
    }
}

/// The gauge values of a reading.
pub fn metric_sample(r: &CurrentReading) -> (s: MetricSample)
    ensures
        s == sample_of(*r),
{
    MetricSample {
        co2: r.c02 as i64,
        temp_fahrenheit_centi: r.temp.f_centi() as i64,
        temp_celsius_centi: r.temp.c_centi() as i64,
        relative_humidity: r.humidity as i64,
        pressure_deci_hpa: r.preasure as i64,
        battery: r.bat as i64,
    }
}

} // verus!
