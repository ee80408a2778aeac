use aranet::error::Error;
use aranet::metrics::metric_sample;
use aranet::reading::{decode_current_reading, CurrentReading, Temp};

fn sample_payload() -> Vec<u8> {
    // co2 850, temp raw 410, pressure 10132, humidity 45, battery 80, status 0
    vec![0x52, 0x03, 0x9a, 0x01, 0x94, 0x27, 45, 80, 0]
}

#[test]
fn decode_fields_little_endian() {
    let r = decode_current_reading(&sample_payload()).unwrap();
    assert_eq!(r.c02, 850);
    assert_eq!(r.temp.raw(), 410);
    assert_eq!(r.preasure, 10132);
    assert_eq!(r.humidity, 45);
    assert_eq!(r.bat, 80);
    assert_eq!(r.status, 0);
}

#[test]
fn decode_round_trips_integer_fields() {
    let payload: Vec<u8> = vec![0xff, 0xfe, 0x01, 0x80, 0x00, 0xff, 7, 8, 9];
    let r = decode_current_reading(&payload).unwrap();
    assert_eq!(r.c02.to_le_bytes(), [payload[0], payload[1]]);
    assert_eq!(r.temp.raw().to_le_bytes(), [payload[2], payload[3]]);
    assert_eq!(r.preasure.to_le_bytes(), [payload[4], payload[5]]);
    assert_eq!([r.humidity, r.bat, r.status], [7, 8, 9]);
}

#[test]
fn decode_short_payload_fails() {
    let full = sample_payload();
    for n in 0..9 {
        assert_eq!(decode_current_reading(&full[..n]), Err(Error::ShortPayload));
    }
}

#[test]
fn decode_nine_or_more_bytes_succeeds() {
    let mut p = sample_payload();
    assert!(decode_current_reading(&p).is_ok());
    p.push(0xaa);
    let r = decode_current_reading(&p).unwrap();
    assert_eq!(r.status, 0);
}

#[test]
fn temp_twenty_celsius() {
    let t = Temp::new(400);
    assert_eq!(t.c_centi(), 2000);
    assert_eq!(t.f_centi(), 6800);
    assert_eq!(t.c(), 200);
    assert_eq!(t.f(), 680);
}

#[test]
fn temp_zero_celsius() {
    let t = Temp::new(0);
    assert_eq!(t.c_centi(), 0);
    assert_eq!(t.f_centi(), 3200);
    assert_eq!(t.c(), 0);
    assert_eq!(t.f(), 320);
}

#[test]
fn temp_largest_raw_value_does_not_overflow() {
    let t = Temp::new(u16::MAX);
    assert_eq!(t.c(), 32767);
    assert_eq!(t.f(), 59301);
    assert_eq!(t.f_centi(), 65535 * 9 + 3200);
    assert_eq!(t.to_text(), "65535");
}

#[test]
fn oneline_celsius_and_fahrenheit() {
    let r = decode_current_reading(&sample_payload()).unwrap();
    assert_eq!(r.oneline(false), "850ppm 20.50°C 45% 1013hPa");
    assert_eq!(r.oneline(true), "850ppm 68.90°F 45% 1013hPa");
}

#[test]
fn full_text_lists_every_field() {
    let r = CurrentReading {
        c02: 850,
        temp: Temp::new(410),
        preasure: 10132,
        humidity: 45,
        bat: 80,
        status: 1,
    };
    assert_eq!(
        r.to_text(),
        "CO2:         850\nTemperature: 20.50°C / 68.90°F\nHumidity:    45\nPresure:     10132\nBattery:     80\nStatus:      1"
    );
}

#[test]
fn oneline_small_fractions_keep_leading_zero() {
    let r = CurrentReading { c02: 0, temp: Temp::new(1), preasure: 9, humidity: 0, bat: 0, status: 0 };
    assert_eq!(r.oneline(false), "0ppm 0.05°C 0% 0hPa");
    assert_eq!(r.oneline(true), "0ppm 32.09°F 0% 0hPa");
}

#[test]
fn metrics_after_one_decode() {
    let r = decode_current_reading(&sample_payload()).unwrap();
    let s = metric_sample(&r);
    assert_eq!(s.co2, 850);
    assert_eq!(s.relative_humidity, 45);
    assert_eq!(s.battery, 80);
    assert_eq!(s.pressure_deci_hpa, 10132);
    assert!((s.pressure_deci_hpa as f64 / 10.0 - 1013.2).abs() < 1e-9);
    assert_eq!(s.temp_celsius_centi, 2050);
    assert_eq!(s.temp_fahrenheit_centi, 6890);
}
