//! Hardware addresses of the two ends of a handshake.

use vstd::prelude::*;
use vstd::string::*;
use crate::text::{hex_byte, push_hex_byte};

verus! {

/// A MAC address: six bytes, compared byte by byte.
#[derive(Clone, Copy, Debug, PartialEq, Eq, PartialOrd, Ord, Hash)]
pub struct MacAddress(pub [u8; 6]);

/// The text of an address: six groups of two lowercase hexadecimal digits,
/// separated by colons.
pub open spec fn mac_text(mac: MacAddress) -> Seq<char> {
    hex_byte(mac.0[0]) + seq![':'] + hex_byte(mac.0[1]) + seq![':'] + hex_byte(mac.0[2]) + seq![
        ':',
    ] + hex_byte(mac.0[3]) + seq![':'] + hex_byte(mac.0[4]) + seq![':'] + hex_byte(mac.0[5])
}

impl MacAddress {
    /// Whether two addresses hold the same six bytes.
    pub fn same(&self, other: &MacAddress) -> (equal: bool)
        ensures
            equal == (*self == *other),
    {
        let equal = self.0[0] == other.0[0] && self.0[1] == other.0[1] && self.0[2] == other.0[2]
            && self.0[3] == other.0[3] && self.0[4] == other.0[4] && self.0[5] == other.0[5];
        assert(equal ==> self.0 =~= other.0);
        equal
    }

    /// The address as text, as [`mac_text`] defines it.
    pub fn to_string(&self) -> (text: String)
        ensures
            text@ == mac_text(*self),
    {
        proof {
            reveal_strlit(":");
        }
        let mut text = String::new();
        push_hex_byte(&mut text, self.0[0]);
        text.append(":");
        push_hex_byte(&mut text, self.0[1]);
        text.append(":");
        push_hex_byte(&mut text, self.0[2]);
        text.append(":");
        push_hex_byte(&mut text, self.0[3]);
        text.append(":");
        push_hex_byte(&mut text, self.0[4]);
        text.append(":");
        push_hex_byte(&mut text, self.0[5]);
        assert(text@ =~= mac_text(*self));
        text
    }
}

} // verus!
