use vstd::prelude::*;

use vstd::string::*;

use crate::error::Error;
use crate::text::{decimal, hundredths, push_decimal, push_hundredths};

verus! {

/// Number of bytes in a current-readings payload.
pub const PAYLOAD_LEN: usize = 9;

/// The unsigned 16-bit value of two little-endian bytes.
pub open spec fn le16(lo: u8, hi: u8) -> u16 {
    (lo as int + 256 * (hi as int)) as u16
}

/// A temperature held as twenty times degrees Celsius, as the sensor sends it.
#[derive(Debug, Clone, Copy, PartialEq, Eq, Structural)]
pub struct Temp(pub u16);

impl View for Temp {
    type V = u16;

    open spec fn view(&self) -> u16 {
        self.0
    }
}

impl Temp {
    pub fn new(value: u16) -> (t: Temp)
        ensures
            t@ == value,
    {
        Temp(value)
    }

    /// The raw wire value, twenty times degrees Celsius.
    pub fn raw(&self) -> (r: u16)
        ensures
            r == self@,
    {
        self.0
    }

    /// Tenths of a degree Celsius, truncated.
    pub fn c(&self) -> (r: u16)
        ensures
            r == self@ / 2,
    {
        self.0 / 2
    }

    /// Tenths of a degree Fahrenheit, truncated at each step as the sensor's vendor does.
    pub fn f(&self) -> (r: u16)
        ensures
            r as int == (self@ as int * 9) / 5 / 2 + 320,
    {
        let nine: u32 = self.0 as u32 * 9;
        let fifths: u32 = nine / 5;
        let halves: u32 = fifths / 2;
        assert(halves <= 58981);
        let r: u32 = halves + 320;
        r as u16
    }

    /// Hundredths of a degree Celsius: exact, since the raw unit is 1/20 degree.
    pub fn c_centi(&self) -> (r: u32)
        ensures
            r == 5 * self@,
    {
        self.0 as u32 * 5
    }

    /// Hundredths of a degree Fahrenheit: exact, `celsius * 9 / 5 + 32` with no rounding.
    pub fn f_centi(&self) -> (r: u32)
        ensures
            r == 9 * self@ + 3200,
    {
        self.0 as u32 * 9 + 3200
    }
}

/// One snapshot of the sensor's current readings.
#[derive(Debug, Clone, Copy, PartialEq, Eq, Structural)]
pub struct CurrentReading {
    /// CO2 concentration in ppm.
    pub c02: u16,
    pub temp: Temp,
    /// Air pressure in tenths of a hectopascal.
    pub preasure: u16,
    /// Relative humidity in percent.
    pub humidity: u8,
    /// Battery charge in percent.
    pub bat: u8,
    /// Device status code, passed through unchanged.
    pub status: u8,
}

/// The reading that a payload of at least nine bytes encodes (its first nine bytes).
pub open spec fn reading_of(b: Seq<u8>) -> CurrentReading
    recommends
        b.len() >= PAYLOAD_LEN,
{
    CurrentReading {
        c02: le16(b[0], b[1]),
        temp: Temp(le16(b[2], b[3])),
        preasure: le16(b[4], b[5]),
        humidity: b[6],
        bat: b[7],
        status: b[8],
    }
}

fn read_le16(lo: u8, hi: u8) -> (r: u16)
    ensures
        r == le16(lo, hi),
{
    let h: u32 = hi as u32;
    assert(h * 256 <= 65280) by (nonlinear_arith)
        requires
            h <= 255,
    ;
    (lo as u32 + h * 256) as u16
}

/// Decodes a current-readings payload: CO2, temperature and pressure as little-endian
/// 16-bit fields, then humidity, battery and status bytes. Bytes past the ninth are
/// ignored; a shorter payload is refused rather than padded.
pub fn decode_current_reading(bytes: &[u8]) -> (r: Result<CurrentReading, Error>)
    ensures
        r is Ok <==> bytes@.len() >= PAYLOAD_LEN,
        r is Ok ==> r->Ok_0 == reading_of(bytes@),
        r is Err ==> r->Err_0 == Error::ShortPayload,
{
    if bytes.len() < PAYLOAD_LEN {
        return Err(Error::ShortPayload);
    }
    Ok(CurrentReading {
        c02: read_le16(bytes[0], bytes[1]),
        temp: Temp::new(read_le16(bytes[2], bytes[3])),
        preasure: read_le16(bytes[4], bytes[5]),
        humidity: bytes[6],
        bat: bytes[7],
        status: bytes[8],
    })
}

/// The compact one-line text of a reading: CO2, the temperature with two decimals in
/// the chosen unit, humidity, and pressure in whole hectopascals.
pub open spec fn oneline_text(r: CurrentReading, fahrenheit: bool) -> Seq<char> {
    decimal(r.c02 as nat) + "ppm "@ + hundredths(
        if fahrenheit {
            (9 * r.temp@ + 3200) as nat
        } else {
            5 * r.temp@ as nat
        },
    ) + (if fahrenheit {
        "°F "@
    } else {
        "°C "@
    }) + decimal(r.humidity as nat) + "% "@ + decimal((r.preasure / 10) as nat) + "hPa"@
}

/// The multi-line text of a reading, one field per line, with the temperature in both
/// units.
pub open spec fn full_text(r: CurrentReading) -> Seq<char> {
    "CO2:         "@ + decimal(r.c02 as nat) + "\nTemperature: "@ + hundredths(5 * r.temp@ as nat)
        + "°C / "@ + hundredths((9 * r.temp@ + 3200) as nat) + "°F\nHumidity:    "@ + decimal(
        r.humidity as nat,
    ) + "\nPresure:     "@ + decimal(r.preasure as nat) + "\nBattery:     "@ + decimal(
        r.bat as nat,
    ) + "\nStatus:      "@ + decimal(r.status as nat)
}

impl Temp {
    /// The raw value as decimal text.
    pub fn to_text(&self) -> (r: String)
        ensures
            r@ == decimal(self@ as nat),
    {
        crate::text::decimal_text(self.0 as u32)
    }
}

impl CurrentReading {
    /// The compact one-line text of the reading.
    pub fn oneline(&self, fahrenheit: bool) -> (r: String)
        ensures
            r@ == oneline_text(*self, fahrenheit),
    {
        let mut s = String::new();
        push_decimal(&mut s, self.c02 as u32);
        s.append("ppm ");
        if fahrenheit {
            push_hundredths(&mut s, self.temp.f_centi());
            s.append("°F ");
        } else {
            push_hundredths(&mut s, self.temp.c_centi());
            s.append("°C ");
        }
        push_decimal(&mut s, self.humidity as u32);
        s.append("% ");
        push_decimal(&mut s, (self.preasure / 10) as u32);
        s.append("hPa");
        assert(s@ =~= oneline_text(*self, fahrenheit));
        s
    }

    /// The multi-line text of the reading.
    pub fn to_text(&self) -> (r: String)
        ensures
            r@ == full_text(*self),
    {
        let mut s = String::new();
        s.append("CO2:         ");
        push_decimal(&mut s, self.c02 as u32);
        s.append("\nTemperature: ");
        push_hundredths(&mut s, self.temp.c_centi());
        s.append("°C / ");
        push_hundredths(&mut s, self.temp.f_centi());
        s.append("°F\nHumidity:    ");
        push_decimal(&mut s, self.humidity as u32);
        s.append("\nPresure:     ");
        push_decimal(&mut s, self.preasure as u32);
        s.append("\nBattery:     ");
        push_decimal(&mut s, self.bat as u32);
        s.append("\nStatus:      ");
        push_decimal(&mut s, self.status as u32);
        assert(s@ =~= full_text(*self));
        s
    }
}

/// The low byte of a 16-bit value.
pub open spec fn low_byte(v: u16) -> u8 {
    (v % 256) as u8
}

/// The high byte of a 16-bit value.
pub open spec fn high_byte(v: u16) -> u8 {
    (v / 256) as u8
}

/// Decoding is lossless: splitting each decoded 16-bit field back into little-endian
/// bytes gives the payload's bytes, and the single-byte fields are the payload's bytes.
pub proof fn lemma_decode_round_trip(b: Seq<u8>)
    requires
        b.len() >= PAYLOAD_LEN,
    ensures
        low_byte(reading_of(b).c02) == b[0],
        high_byte(reading_of(b).c02) == b[1],
        low_byte(reading_of(b).temp@) == b[2],
        high_byte(reading_of(b).temp@) == b[3],
        low_byte(reading_of(b).preasure) == b[4],
        high_byte(reading_of(b).preasure) == b[5],
        reading_of(b).humidity == b[6],
        reading_of(b).bat == b[7],
        reading_of(b).status == b[8],
{
    lemma_le16_split(b[0], b[1]);
    lemma_le16_split(b[2], b[3]);
    lemma_le16_split(b[4], b[5]);
}

proof fn lemma_le16_split(lo: u8, hi: u8)
    ensures
        low_byte(le16(lo, hi)) == lo,
        high_byte(le16(lo, hi)) == hi,
{
    let v: int = lo as int + 256 * (hi as int);
    assert(0 <= v < 65536) by (nonlinear_arith)
        requires
            v == lo as int + 256 * (hi as int),
            0 <= lo < 256,
            0 <= hi < 256,
    ;
    assert(v % 256 == lo as int && v / 256 == hi as int) by (nonlinear_arith)
        requires
            v == lo as int + 256 * (hi as int),
            0 <= lo < 256,
            0 <= hi < 256,
    ;
}

} // verus!
