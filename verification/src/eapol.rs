//! EAPOL-Key frames as the assembly engine sees them: the fields of the frame
//! as plain values, its place in the four-way handshake, its PMKID and its
//! bytes on the wire.
//!
//! The classification, the PMKID lookup and the serialisation are those of
//! `libwifi`; the three functions that call it are the only unverified code of
//! this module, and each states what `libwifi` computes.

use vstd::prelude::*;

verus! {

/// The place of an EAPOL-Key frame in the key exchange.
#[derive(Clone, Copy, Debug, PartialEq, Eq, Structural)]
pub enum MessageType {
    Message1,
    Message2,
    Message3,
    Message4,
    GTK,
    Error,
}

/// A pairwise master key identifier.
#[derive(Clone, Copy, Debug)]
pub struct Pmkid {
    pub pmkid: [u8; 16],
}

/// An EAPOL-Key frame.  `timestamp` is the instant of capture in nanoseconds
/// since the Unix epoch; the other fields are those of the frame on the wire.
#[derive(Debug)]
pub struct EapolKey {
    pub protocol_version: u8,
    pub timestamp: u128,
    pub packet_type: u8,
    pub packet_length: u16,
    pub descriptor_type: u8,
    pub key_information: u16,
    pub key_length: u16,
    pub replay_counter: u64,
    pub key_nonce: [u8; 32],
    pub key_iv: [u8; 16],
    pub key_rsc: u64,
    pub key_id: u64,
    pub key_mic: [u8; 16],
    pub key_data_length: u16,
    pub key_data: Vec<u8>,
}

/// The mathematical value of an [`EapolKey`].
#[verifier::ext_equal]
pub struct EapolKeyView {
    pub protocol_version: u8,
    pub timestamp: u128,
    pub packet_type: u8,
    pub packet_length: u16,
    pub descriptor_type: u8,
    pub key_information: u16,
    pub key_length: u16,
    pub replay_counter: u64,
    pub key_nonce: [u8; 32],
    pub key_iv: [u8; 16],
    pub key_rsc: u64,
    pub key_id: u64,
    pub key_mic: [u8; 16],
    pub key_data_length: u16,
    pub key_data: Seq<u8>,
}

impl View for EapolKey {
    type V = EapolKeyView;

    open spec fn view(&self) -> EapolKeyView {
        EapolKeyView {
            protocol_version: self.protocol_version,
            timestamp: self.timestamp,
            packet_type: self.packet_type,
            packet_length: self.packet_length,
            descriptor_type: self.descriptor_type,
            key_information: self.key_information,
            key_length: self.key_length,
            replay_counter: self.replay_counter,
            key_nonce: self.key_nonce,
            key_iv: self.key_iv,
            key_rsc: self.key_rsc,
            key_id: self.key_id,
            key_mic: self.key_mic,
            key_data_length: self.key_data_length,
            key_data: self.key_data@,
        }
    }
}

/// The view of an optional frame.
pub open spec fn view_opt(key: Option<EapolKey>) -> Option<EapolKeyView> {
    match key {
        Some(k) => Some(k@),
        None => None,
    }
}

/// The message that a key-information field announces.  A frame without the
/// pairwise bit belongs to a group key exchange; with it, the acknowledge, MIC,
/// secure and install bits tell the four messages apart, and every other
/// combination is an error.
pub open spec fn message_type_of(key_information: u16) -> MessageType {
    let pairwise = key_information & 0x0008 != 0;
    let install = key_information & 0x0040 != 0;
    let ack = key_information & 0x0080 != 0;
    let mic = key_information & 0x0100 != 0;
    let secure = key_information & 0x0200 != 0;
    if !pairwise {
        MessageType::GTK
    } else if ack && !mic && !secure && !install {
        MessageType::Message1
    } else if !ack && mic && !secure && !install {
        MessageType::Message2
    } else if ack && mic && secure && install {
        MessageType::Message3
    } else if !ack && mic && secure && !install {
        MessageType::Message4
    } else {
        MessageType::Error
    }
}

/// The PMKID that a frame carries.  Only a first message whose key data is
/// exactly one 22-byte PMKID element carries one: length byte `0x14`, the RSN
/// suite `00:0f:ac`, type 4, and sixteen identifier bytes that are not all
/// zero.
pub open spec fn pmkid_of(key_information: u16, key_data_length: u16, key_data: Seq<u8>) -> Option<
    Seq<u8>,
> {
    if message_type_of(key_information) == MessageType::Message1 && key_data_length == 22
        && key_data.len() == 22 && key_data[1] == 0x14 && key_data[2] == 0x00 && key_data[3]
        == 0x0f && key_data[4] == 0xac && key_data[5] == 4 && exists|i: int|
        6 <= i < 22 && key_data[i] != 0 {
        Some(key_data.subrange(6, 22))
    } else {
        None
    }
}

/// The `width` low-order bytes of `x`, most significant first.
pub open spec fn be_bytes(x: nat, width: nat) -> Seq<u8>
    decreases width,
{
    if width == 0 {
        Seq::empty()
    } else {
        be_bytes(x / 256, (width - 1) as nat) + seq![(x % 256) as u8]
    }
}

/// The frame as it stands on the wire: every field in order, integers
/// big-endian, the key data last.
pub open spec fn wire_bytes(key: EapolKeyView) -> Seq<u8> {
    seq![key.protocol_version, key.packet_type] + be_bytes(key.packet_length as nat, 2)
        + seq![key.descriptor_type] + be_bytes(key.key_information as nat, 2) + be_bytes(
        key.key_length as nat,
        2,
    ) + be_bytes(key.replay_counter as nat, 8) + key.key_nonce@ + key.key_iv@ + be_bytes(
        key.key_rsc as nat,
        8,
    ) + be_bytes(key.key_id as nat, 8) + key.key_mic@ + be_bytes(key.key_data_length as nat, 2)
        + key.key_data
}

/// Calls `libwifi::frame::EapolKey::determine_key_type` on a frame with the
/// given key-information field.  The method reads no other field; what it
/// returns for each combination of bits is [`message_type_of`].
#[verifier::external_body]
fn classify(key_information: u16) -> (kind: MessageType)
    ensures
        kind == message_type_of(key_information),
{
    let frame = libwifi::frame::EapolKey { key_information, ..Default::default() };
    match frame.determine_key_type() {
        libwifi::frame::MessageType::Message1 => MessageType::Message1,
        libwifi::frame::MessageType::Message2 => MessageType::Message2,
        libwifi::frame::MessageType::Message3 => MessageType::Message3,
        libwifi::frame::MessageType::Message4 => MessageType::Message4,
        libwifi::frame::MessageType::GTK => MessageType::GTK,
        libwifi::frame::MessageType::Error => MessageType::Error,
    }
}

/// Calls `libwifi::frame::EapolKey::pmkid` on a frame with the given
/// key-information field and key data.  The method reads no other field and
/// returns the identifier described by [`pmkid_of`].  It panics where the
/// length field says 22 and the data has another length, which the
/// precondition rules out.
#[verifier::external_body]
fn find_pmkid(key_information: u16, key_data_length: u16, key_data: &Vec<u8>) -> (found: Option<
    [u8; 16],
>)
    requires
        key_data_length == 22 ==> key_data@.len() == 22,
    ensures
        match found {
            Some(id) => pmkid_of(key_information, key_data_length, key_data@) == Some(id@),
            None => pmkid_of(key_information, key_data_length, key_data@) is None,
        },
{
    let key_data = key_data.clone();
    let frame = libwifi::frame::EapolKey {
        key_information,
        key_data_length,
        key_data,
        ..Default::default()
    };
    match frame.pmkid() {
        Some(element) => Some(element.pmkid),
        None => None,
    }
}

/// Calls `libwifi::frame::EapolKey::to_bytes`, which writes the fields of the
/// frame, all but the time of capture, into a fresh vector as [`wire_bytes`]
/// says.  Writing into a vector does not fail.
#[verifier::external_body]
fn serialize(key: &EapolKey) -> (bytes: Vec<u8>)
    ensures
        bytes@ == wire_bytes(key@),
{
    let frame = libwifi::frame::EapolKey {
        protocol_version: key.protocol_version, packet_type: key.packet_type,
        packet_length: key.packet_length, descriptor_type: key.descriptor_type,
        key_information: key.key_information, key_length: key.key_length,
        replay_counter: key.replay_counter, key_nonce: key.key_nonce, key_iv: key.key_iv,
        key_rsc: key.key_rsc, key_id: key.key_id, key_mic: key.key_mic,
        key_data_length: key.key_data_length, key_data: key.key_data.clone(),
        timestamp: std::time::UNIX_EPOCH,
    };
    frame.to_bytes().unwrap_or_default()
}

impl EapolKeyView {
    /// The message that this frame is.
    pub open spec fn message_type(self) -> MessageType {
        message_type_of(self.key_information)
    }

    /// The PMKID of this frame, if it carries one.
    pub open spec fn pmkid(self) -> Option<Seq<u8>> {
        pmkid_of(self.key_information, self.key_data_length, self.key_data)
    }
}

impl Clone for EapolKey {
    fn clone(&self) -> (copy: Self)
        ensures
            copy@ == self@,
    {
        let key_data = self.key_data.clone();
        assert(key_data@ =~= self.key_data@);
        EapolKey {
            protocol_version: self.protocol_version,
            timestamp: self.timestamp,
            packet_type: self.packet_type,
            packet_length: self.packet_length,
            descriptor_type: self.descriptor_type,
            key_information: self.key_information,
            key_length: self.key_length,
            replay_counter: self.replay_counter,
            key_nonce: self.key_nonce,
            key_iv: self.key_iv,
            key_rsc: self.key_rsc,
            key_id: self.key_id,
            key_mic: self.key_mic,
            key_data_length: self.key_data_length,
            key_data,
        }
    }
}

impl Default for EapolKey {
    /// A frame captured at the epoch with every field zero and no key data.
    fn default() -> (key: Self)
        ensures
            key@.protocol_version == 0 && key@.packet_type == 0 && key@.packet_length == 0,
            key@.descriptor_type == 0 && key@.key_information == 0 && key@.key_length == 0,
            key@.replay_counter == 0 && key@.key_rsc == 0 && key@.key_id == 0,
            key@.timestamp == 0,
            key@.key_data_length == 0,
            key@.key_data == Seq::<u8>::empty(),
            forall|i: int| 0 <= i < 32 ==> key@.key_nonce[i] == 0,
            forall|i: int| 0 <= i < 16 ==> key@.key_mic[i] == 0 && key@.key_iv[i] == 0,
    {
        EapolKey {
            protocol_version: 0,
            timestamp: 0,
            packet_type: 0,
            packet_length: 0,
            descriptor_type: 0,
            key_information: 0,
            key_length: 0,
            replay_counter: 0,
            key_nonce: [0u8; 32],
            key_iv: [0u8; 16],
            key_rsc: 0,
            key_id: 0,
            key_mic: [0u8; 16],
            key_data_length: 0,
            key_data: Vec::new(),
        }
    }
}

impl EapolKey {
    /// Which message of the handshake this frame is.
    pub fn determine_key_type(&self) -> (kind: MessageType)
        ensures
            kind == self@.message_type(),
    {
        classify(self.key_information)
    }

    /// The PMKID that this frame carries, if any.
    pub fn has_pmkid(&self) -> (found: Option<Pmkid>)
        ensures
            match found {
                Some(p) => self@.pmkid() == Some(p.pmkid@),
                None => self@.pmkid() is None,
            },
    {
        if self.key_data_length == 22 && self.key_data.len() != 22 {
            None
        } else {
            match find_pmkid(self.key_information, self.key_data_length, &self.key_data) {
                Some(pmkid) => Some(Pmkid { pmkid }),
                None => None,
            }
        }
    }

    /// The frame as it stands on the wire.
    pub fn to_bytes(&self) -> (bytes: Vec<u8>)
        ensures
            bytes@ == wire_bytes(self@),
    {
        serialize(self)
    }
}

} // verus!
