use vstd::prelude::*;
use vstd::string::*;

use crate::address::{is_mac_text, mac_octet, str_mac_to_array};
use crate::error::Error;

verus! {

/// Seconds between two polls when the configuration does not say.
pub const DEFAULT_STREAM_FREQ_SECS: u64 = 30;

/// The program's settings, as loaded from its configuration file.
#[derive(Debug)]
pub struct Cfg {
    /// The Bluetooth adapter, such as `hci0`.
    pub adapter: String,
    /// Addresses of the sensors, such as `ED:12:89:6C:08:37`.
    pub macs: Vec<String>,
    pub fahrenheit: Option<bool>,
    /// Seconds between two polls.
    pub stream_freq: Option<u64>,
    pub prometheus_address: Option<String>,
    pub conn_timeout_ms: Option<u64>,
}

impl Cfg {
    /// Temperatures are shown in Fahrenheit only when the configuration asks for it.
    pub fn use_fahrenheit(&self) -> (r: bool)
        ensures
            r == (self.fahrenheit == Some(true)),
    {
        match self.fahrenheit {
            Some(f) => f,
            None => false,
        }
    }

    /// Seconds between two polls.
    pub fn stream_interval_secs(&self) -> (r: u64)
        ensures
            r == match self.stream_freq {
                Some(s) => s,
                None => DEFAULT_STREAM_FREQ_SECS,
            },
    {
        match self.stream_freq {
            Some(s) => s,
            None => DEFAULT_STREAM_FREQ_SECS,
        }
    }

    /// How long the device search may take, in milliseconds.
    pub fn search_timeout_ms(&self) -> (r: u64)
        ensures
            r == match self.conn_timeout_ms {
                Some(t) => t,
                None => crate::discovery::DEFAULT_SEARCH_TIMEOUT_MS,
            },
    {
        match self.conn_timeout_ms {
            Some(t) => t,
            None => crate::discovery::DEFAULT_SEARCH_TIMEOUT_MS,
        }
    }

    /// Where the metrics endpoint listens.
    pub fn metrics_address(&self) -> (r: String)
        ensures
            r@ == match self.prometheus_address {
                Some(a) => a@,
                None => "127.0.0.1:8080"@,
            },
    {
        match &self.prometheus_address {
            Some(a) => a.clone(),
            None => String::from_str("127.0.0.1:8080"),
        }
    }

    /// The configured sensor addresses as bytes; refused if any of them is malformed.
    pub fn addresses(&self) -> (r: Result<Vec<[u8; 6]>, Error>)
        ensures
            r is Ok <==> forall|i: int| 0 <= i < self.macs@.len() ==> #[trigger] is_mac_text(self.macs@[i]@),
            r is Ok ==> r->Ok_0@.len() == self.macs@.len() && forall|i: int, k: int|
                0 <= i < self.macs@.len() && 0 <= k < 6 ==> #[trigger] r->Ok_0@[i][k] == mac_octet(
                    self.macs@[i]@,
                    k,
                ),
            r is Err ==> r->Err_0 == Error::MalformedAddress,
    {
        let mut out: Vec<[u8; 6]> = Vec::new();
        let mut i: usize = 0;
        while i < self.macs.len()
            invariant
                i <= self.macs@.len(),
                out@.len() == i,
                forall|j: int| 0 <= j < i ==> #[trigger] is_mac_text(self.macs@[j]@),
                forall|j: int, k: int|
                    0 <= j < i && 0 <= k < 6 ==> #[trigger] out@[j][k] == mac_octet(self.macs@[j]@, k),
            decreases self.macs@.len() - i,
        {
            match str_mac_to_array(self.macs[i].as_str()) {
                Ok(a) => {
                    out.push(a);
                },
                Err(e) => {
                    return Err(e);
                },
            }
            i = i + 1;
        }
        Ok(out)
    }
}

} // verus!
