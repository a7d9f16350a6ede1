//! Checksum library for the reflected CRC64 variant used by object-storage
//! integrity headers: table construction, streaming byte-wise update,
//! finalization, textual renderings of the 64-bit result, and aggregation of
//! per-source results into line-oriented or JSON reports.

pub mod crc;
pub mod format;
pub mod json;
pub mod report;
