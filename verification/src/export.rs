//! The hashcat 22000 serialisation of a record: a `WPA*01` line for a PMKID, a
//! `WPA*02` line for a complete handshake.

use vstd::prelude::*;
use vstd::string::*;
use vstd::utf8::encode_utf8;
use crate::eapol::Pmkid;
use crate::handshake::{FourWayHandshake, HandshakeView};
use crate::mac::mac_text;
use crate::text::{hex_byte, hex_string, push_hex, push_hex_byte};

verus! {

/// The bits of the message-pair byte that tell of an AP-less capture, of
/// nonce correction and of the byte order of the nonce counter.
pub open spec fn flag_bits(h: HandshakeView) -> u8 {
    (if h.apless { 0x10u8 } else { 0u8 }) | (if h.nc { 0x80u8 } else { 0u8 }) | (if h.l_endian {
        0x20u8
    } else {
        0u8
    }) | (if h.b_endian { 0x40u8 } else { 0u8 })
}

/// The code of the pair of messages that backs the capture; the first pair
/// that is present decides.
pub open spec fn basic_pair(h: HandshakeView) -> u8 {
    if h.msg2 is Some && h.msg3 is Some {
        0x02
    } else if h.msg1 is Some && h.msg2 is Some {
        0x00
    } else if h.msg1 is Some && h.msg4 is Some {
        0x01
    } else if h.msg3 is Some && h.msg4 is Some {
        0x05
    } else {
        0x00
    }
}

/// The message-pair byte of a record.
pub open spec fn message_pair(h: HandshakeView) -> u8 {
    flag_bits(h) | basic_pair(h)
}

/// The message-pair byte as a sum: its flags and the code of the pair share
/// no bit, so that the byte is 16 for an AP-less capture, 128 for nonce
/// correction, 32 and 64 for the two byte orders, and the code of the pair,
/// added up.
pub proof fn lemma_message_pair_sum(h: HandshakeView)
    ensures
        message_pair(h) == (if h.apless { 16int } else { 0 }) + (if h.nc { 128int } else { 0 })
            + (if h.l_endian { 32int } else { 0 }) + (if h.b_endian { 64int } else { 0 })
            + basic_pair(h),
        basic_pair(h) == 0 || basic_pair(h) == 1 || basic_pair(h) == 2 || basic_pair(h) == 5,
{
    let a: u8 = if h.apless { 0x10 } else { 0 };
    let n: u8 = if h.nc { 0x80 } else { 0 };
    let l: u8 = if h.l_endian { 0x20 } else { 0 };
    let b: u8 = if h.b_endian { 0x40 } else { 0 };
    let p: u8 = basic_pair(h);
    assert((a == 0 || a == 0x10) && (n == 0 || n == 0x80) && (l == 0 || l == 0x20) && (b == 0 || b
        == 0x40) && (p == 0 || p == 1 || p == 2 || p == 5) ==> (a | n | l | b | p) == a + n + l + b
        + p) by (bit_vector);
}

/// The fields that both lines share, each with its leading separator: the two
/// addresses and the network name in hexadecimal.
pub open spec fn endpoint_fields(h: HandshakeView) -> Seq<char> {
    "*"@ + mac_text(h.mac_ap->0) + "*"@ + mac_text(h.mac_client->0) + "*"@ + hex_string(
        encode_utf8(h.essid->0),
    )
}

/// The PMKID line of a record for a given identifier, owed where both
/// addresses and the network name are known.
pub open spec fn pmkid_line_for(h: HandshakeView, pmkid: Seq<u8>) -> Option<Seq<char>> {
    if h.mac_ap is Some && h.mac_client is Some && h.essid is Some {
        Some(
            "WPA*01*"@ + hex_string(pmkid) + endpoint_fields(h) + "***"@ + hex_byte(
                message_pair(h),
            ),
        )
    } else {
        None
    }
}

/// The PMKID line of a record, if it has one.
pub open spec fn pmkid_line(h: HandshakeView) -> Option<Seq<char>> {
    match h.pmkid {
        Some(pmkid) => pmkid_line_for(h, pmkid),
        None => None,
    }
}

/// The EAPOL line of a record, owed where the record is complete.
pub open spec fn eapol_line(h: HandshakeView) -> Option<Seq<char>> {
    if h.complete() {
        Some(
            "WPA*02*"@ + hex_string(h.mic->0@) + endpoint_fields(h) + "*"@ + hex_string(
                h.anonce->0@,
            ) + "*"@ + hex_string(h.eapol_client->0) + "*"@ + hex_byte(message_pair(h)),
        )
    } else {
        None
    }
}

/// What a record exports: its PMKID line, its EAPOL line, both with a line
/// feed between them, or nothing.
pub open spec fn export_text(h: HandshakeView) -> Option<Seq<char>> {
    match (pmkid_line(h), eapol_line(h)) {
        (Some(first), Some(second)) => Some(first + "\n"@ + second),
        (Some(first), None) => Some(first),
        (None, Some(second)) => Some(second),
        (None, None) => None,
    }
}

impl FourWayHandshake {
    /// The message-pair byte of the record.
    pub fn message_pair_byte(&self) -> (pair: u8)
        ensures
            pair == message_pair(self@),
    {
        let apless: u8 = if self.apless { 0x10 } else { 0 };
        let nc: u8 = if self.nc { 0x80 } else { 0 };
        let little: u8 = if self.l_endian { 0x20 } else { 0 };
        let big: u8 = if self.b_endian { 0x40 } else { 0 };
        let basic: u8 = if self.msg2.is_some() && self.msg3.is_some() {
            0x02
        } else if self.msg1.is_some() && self.msg2.is_some() {
            0x00
        } else if self.msg1.is_some() && self.msg4.is_some() {
            0x01
        } else if self.msg3.is_some() && self.msg4.is_some() {
            0x05
        } else {
            0x00
        };
        apless | nc | little | big | basic
    }

    /// The message-pair byte as two hexadecimal digits.
    pub fn calculate_message_pair(&self) -> (text: String)
        ensures
            text@ == hex_byte(message_pair(self@)),
    {
        let mut text = String::new();
        push_hex_byte(&mut text, self.message_pair_byte());
        assert(text@ =~= hex_byte(message_pair(self@)));
        text
    }

    /// Appends the two addresses and the network name, each behind a `*`.
    fn push_endpoint_fields(&self, out: &mut String)
        requires
            self@.mac_ap is Some,
            self@.mac_client is Some,
            self@.essid is Some,
        ensures
            final(out)@ == old(out)@ + endpoint_fields(self@),
    {
        match (&self.mac_ap, &self.mac_client, &self.essid) {
            (Some(ap), Some(client), Some(essid)) => {
                out.append("*");
                out.append(ap.to_string().as_str());
                out.append("*");
                out.append(client.to_string().as_str());
                out.append("*");
                push_hex(out, essid.as_str().as_bytes());
                assert(out@ =~= old(out)@ + endpoint_fields(self@));
            },
            _ => {},
        }
    }

    /// The `WPA*01` line for `pmkid`, where the addresses and the network name
    /// of the record are known.
    pub fn generate_pmkid_hashcat_format(&self, pmkid: &Pmkid) -> (line: Option<String>)
        ensures
            match line {
                Some(text) => pmkid_line_for(self@, pmkid.pmkid@) == Some(text@),
                None => pmkid_line_for(self@, pmkid.pmkid@) is None,
            },
    {
        if self.mac_ap.is_none() || self.mac_client.is_none() || self.essid.is_none() {
            return None;
        }
        let mut text = String::new();
        text.append("WPA*01*");
        push_hex(&mut text, &pmkid.pmkid);
        self.push_endpoint_fields(&mut text);
        text.append("***");
        push_hex_byte(&mut text, self.message_pair_byte());
        assert(text@ =~= pmkid_line_for(self@, pmkid.pmkid@)->0);
        Some(text)
    }

    /// The `WPA*02` line, where the record is complete.
    pub fn generate_eapol_hashcat_format(&self) -> (line: Option<String>)
        ensures
            match line {
                Some(text) => eapol_line(self@) == Some(text@),
                None => eapol_line(self@) is None,
            },
    {
        match (&self.mic, &self.anonce, &self.eapol_client) {
            (Some(mic), Some(anonce), Some(eapol_client)) => {
                if !self.complete() {
                    return None;
                }
                let mut text = String::new();
                text.append("WPA*02*");
                push_hex(&mut text, mic);
                self.push_endpoint_fields(&mut text);
                text.append("*");
                push_hex(&mut text, anonce);
                text.append("*");
                push_hex(&mut text, eapol_client.as_slice());
                text.append("*");
                push_hex_byte(&mut text, self.message_pair_byte());
                assert(text@ =~= eapol_line(self@)->0);
                Some(text)
            },
            _ => None,
        }
    }

    /// The record in hashcat 22000 format: the PMKID line where there is a
    /// PMKID, the EAPOL line where the record is complete, a line feed between
    /// the two, and `None` where neither is owed.
    pub fn to_hashcat_22000_format(&self) -> (output: Option<String>)
        ensures
            match output {
                Some(text) => export_text(self@) == Some(text@),
                None => export_text(self@) is None,
            },
    {
        let first = match &self.pmkid {
            Some(pmkid) => self.generate_pmkid_hashcat_format(pmkid),
            None => None,
        };
        let second = self.generate_eapol_hashcat_format();
        match (first, second) {
            (Some(mut text), Some(line)) => {
                text.append("\n");
                text.append(line.as_str());
                assert(text@ =~= export_text(self@)->0);
                Some(text)
            },
            (Some(text), None) => Some(text),
            (None, Some(line)) => Some(line),
            (None, None) => None,
        }
    }
}

} // verus!
