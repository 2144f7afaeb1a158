//! Assembly of WPA/WPA2 four-way handshakes into hashcat 22000 records.
//!
//! EAPOL-Key frames are routed to per-session records, validated against the
//! state of the record they join, and serialised once enough material has been
//! collected.  The functions of this crate are verified against the contracts
//! written on them; the few that call into `libwifi`, `chrono` and `rand` state instead
//! what they rely on.

pub mod ascii;
pub mod eapol;
pub mod export;
pub mod handshake;
pub mod laws;
pub mod mac;
pub mod order;
pub mod storage;
pub mod table;
pub mod text;

