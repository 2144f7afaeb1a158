//! One four-way handshake: the record that collects its messages and the
//! rules by which a frame joins it.

use vstd::prelude::*;
use vstd::string::*;
use crate::eapol::{view_opt, wire_bytes, EapolKey, EapolKeyView, MessageType, Pmkid};
use crate::mac::MacAddress;

verus! {

/// Why a record refused a frame.
#[derive(Clone, Copy, Debug, PartialEq, Eq, Structural)]
pub enum HandshakeError {
    /// The frame belongs to a group key exchange, or its key-information field
    /// names no message of the four-way handshake.
    WrongKeyType,
    /// The record already holds a message of this kind.
    SlotAlreadyFilled,
    /// A MIC or a nonce is missing where the message must carry one, or present
    /// where it must not.
    InvariantViolation,
    /// The replay counter does not follow that of the preceding message.
    ReplayCounterOutOfWindow,
    /// The frame came more than two seconds after the preceding message.
    TemporalOutOfWindow,
    /// The nonce of a third message differs from the stored ANonce in its
    /// first 28 bytes.
    AnonceMismatch,
}

/// The words in which a reason for refusal is reported.
pub open spec fn error_text(reason: HandshakeError) -> Seq<char> {
    match reason {
        HandshakeError::WrongKeyType => "frame is no message of the four-way handshake"@,
        HandshakeError::SlotAlreadyFilled => "message already present"@,
        HandshakeError::InvariantViolation => "MIC or nonce not as the message requires"@,
        HandshakeError::ReplayCounterOutOfWindow => "replay counter not within range"@,
        HandshakeError::TemporalOutOfWindow => "time difference too great"@,
        HandshakeError::AnonceMismatch => "ANonce not close enough to that of the first message"@,
    }
}

impl HandshakeError {
    /// The reason in words.
    pub fn message(&self) -> (text: &'static str)
        ensures
            text@ == error_text(*self),
    {
        match self {
            HandshakeError::WrongKeyType => "frame is no message of the four-way handshake",
            HandshakeError::SlotAlreadyFilled => "message already present",
            HandshakeError::InvariantViolation => "MIC or nonce not as the message requires",
            HandshakeError::ReplayCounterOutOfWindow => "replay counter not within range",
            HandshakeError::TemporalOutOfWindow => "time difference too great",
            HandshakeError::AnonceMismatch => "ANonce not close enough to that of the first message",
        }
    }
}

/// The longest time between two consecutive messages, in nanoseconds.
pub const MAX_MESSAGE_GAP: u128 = 2_000_000_000;

/// The widest step of the replay counter between two consecutive messages.
pub const MAX_REPLAY_STEP: u64 = 3;

/// The state of one four-way handshake.
#[derive(Debug)]
pub struct FourWayHandshake {
    pub msg1: Option<EapolKey>,
    pub msg2: Option<EapolKey>,
    pub msg3: Option<EapolKey>,
    pub msg4: Option<EapolKey>,
    pub last_msg: Option<EapolKey>,
    pub eapol_client: Option<Vec<u8>>,
    pub mic: Option<[u8; 16]>,
    pub anonce: Option<[u8; 32]>,
    pub snonce: Option<[u8; 32]>,
    pub apless: bool,
    pub nc: bool,
    pub l_endian: bool,
    pub b_endian: bool,
    pub pmkid: Option<Pmkid>,
    pub mac_ap: Option<MacAddress>,
    pub mac_client: Option<MacAddress>,
    pub essid: Option<String>,
}

/// The mathematical value of a [`FourWayHandshake`].
#[verifier::ext_equal]
pub struct HandshakeView {
    pub msg1: Option<EapolKeyView>,
    pub msg2: Option<EapolKeyView>,
    pub msg3: Option<EapolKeyView>,
    pub msg4: Option<EapolKeyView>,
    pub last_msg: Option<EapolKeyView>,
    pub eapol_client: Option<Seq<u8>>,
    pub mic: Option<[u8; 16]>,
    pub anonce: Option<[u8; 32]>,
    pub snonce: Option<[u8; 32]>,
    pub apless: bool,
    pub nc: bool,
    pub l_endian: bool,
    pub b_endian: bool,
    pub pmkid: Option<Seq<u8>>,
    pub mac_ap: Option<MacAddress>,
    pub mac_client: Option<MacAddress>,
    pub essid: Option<Seq<char>>,
}

impl View for FourWayHandshake {
    type V = HandshakeView;

    open spec fn view(&self) -> HandshakeView {
        HandshakeView {
            msg1: view_opt(self.msg1),
            msg2: view_opt(self.msg2),
            msg3: view_opt(self.msg3),
            msg4: view_opt(self.msg4),
            last_msg: view_opt(self.last_msg),
            eapol_client: match self.eapol_client {
                Some(bytes) => Some(bytes@),
                None => None,
            },
            mic: self.mic,
            anonce: self.anonce,
            snonce: self.snonce,
            apless: self.apless,
            nc: self.nc,
            l_endian: self.l_endian,
            b_endian: self.b_endian,
            pmkid: match self.pmkid {
                Some(p) => Some(p.pmkid@),
                None => None,
            },
            mac_ap: self.mac_ap,
            mac_client: self.mac_client,
            essid: match self.essid {
                Some(name) => Some(name@),
                None => None,
            },
        }
    }
}

/// Whether every byte is zero.
pub open spec fn all_zero(bytes: Seq<u8>) -> bool {
    forall|i: int| 0 <= i < bytes.len() ==> bytes[i] == 0
}

/// Whether the replay counter of `key` follows that of `prev`: greater, by
/// three at most.  With no preceding message there is nothing to follow.
pub open spec fn in_replay_window(prev: Option<EapolKeyView>, key: EapolKeyView) -> bool {
    prev matches Some(p) ==> p.replay_counter < key.replay_counter <= p.replay_counter
        + MAX_REPLAY_STEP
}

/// Whether `key` came no more than two seconds after `prev`.
pub open spec fn in_time_window(prev: Option<EapolKeyView>, key: EapolKeyView) -> bool {
    prev matches Some(p) ==> key.timestamp - p.timestamp <= MAX_MESSAGE_GAP
}

/// The record with `key` as its latest message.
pub open spec fn with_last(h: HandshakeView, key: EapolKeyView) -> HandshakeView {
    HandshakeView { last_msg: Some(key), ..h }
}

/// What a first message does to a record.
pub open spec fn add_message1(h: HandshakeView, key: EapolKeyView) -> Result<
    HandshakeView,
    HandshakeError,
> {
    if h.msg1 is Some {
        Err(HandshakeError::SlotAlreadyFilled)
    } else if !all_zero(key.key_mic@) {
        Err(HandshakeError::InvariantViolation)
    } else {
        Ok(
            HandshakeView {
                pmkid: if key.pmkid() is Some {
                    key.pmkid()
                } else {
                    h.pmkid
                },
                anonce: Some(key.key_nonce),
                msg1: Some(key),
                ..with_last(h, key)
            },
        )
    }
}

/// What a second message does to a record.
pub open spec fn add_message2(h: HandshakeView, key: EapolKeyView) -> Result<
    HandshakeView,
    HandshakeError,
> {
    if h.msg2 is Some {
        Err(HandshakeError::SlotAlreadyFilled)
    } else if all_zero(key.key_mic@) || all_zero(key.key_nonce@) {
        Err(HandshakeError::InvariantViolation)
    } else if !in_replay_window(h.msg1, key) {
        Err(HandshakeError::ReplayCounterOutOfWindow)
    } else if !in_time_window(h.msg1, key) {
        Err(HandshakeError::TemporalOutOfWindow)
    } else {
        Ok(
            HandshakeView {
                snonce: Some(key.key_nonce),
                mic: Some(key.key_mic),
                eapol_client: Some(wire_bytes(key)),
                msg2: Some(key),
                ..with_last(h, key)
            },
        )
    }
}

/// Whether a third message's nonce agrees with the stored ANonce in the
/// first 28 bytes.
pub open spec fn anonce_close(anonce: [u8; 32], nonce: [u8; 32]) -> bool {
    anonce@.subrange(0, 28) == nonce@.subrange(0, 28)
}

/// The record after the nonce of a third message has been held against the
/// stored ANonce.  Without a stored ANonce the nonce becomes it.  Where the
/// last four bytes differ, nonce correction is needed; a difference in the
/// last byte tells a little-endian counter, and otherwise a difference in the
/// first of the four a big-endian one.
pub open spec fn correct_nonce(h: HandshakeView, nonce: [u8; 32]) -> HandshakeView {
    match h.anonce {
        None => HandshakeView { anonce: Some(nonce), nc: false, ..h },
        Some(anonce) => if anonce@.subrange(28, 32) == nonce@.subrange(28, 32) {
            h
        } else {
            HandshakeView {
                nc: true,
                l_endian: h.l_endian || anonce[31] != nonce[31],
                b_endian: h.b_endian || (anonce[31] == nonce[31] && anonce[28] != nonce[28]),
                ..h
            }
        },
    }
}

/// What a third message does to a record.
pub open spec fn add_message3(h: HandshakeView, key: EapolKeyView) -> Result<
    HandshakeView,
    HandshakeError,
> {
    if h.msg3 is Some {
        Err(HandshakeError::SlotAlreadyFilled)
    } else if all_zero(key.key_mic@) || all_zero(key.key_nonce@) {
        Err(HandshakeError::InvariantViolation)
    } else if h.anonce is Some && !anonce_close(h.anonce->0, key.key_nonce) {
        Err(HandshakeError::AnonceMismatch)
    } else if !in_replay_window(h.msg2, key) {
        Err(HandshakeError::ReplayCounterOutOfWindow)
    } else if !in_time_window(h.msg2, key) {
        Err(HandshakeError::TemporalOutOfWindow)
    } else {
        Ok(HandshakeView { msg3: Some(key), ..with_last(correct_nonce(h, key.key_nonce), key) })
    }
}

/// What a fourth message does to a record.  A fourth message with a nonce
/// stands in for a missing second one: its nonce becomes the SNonce, and if no
/// EAPOL body is held yet, its MIC and bytes become the pair to export.
pub open spec fn add_message4(h: HandshakeView, key: EapolKeyView) -> Result<
    HandshakeView,
    HandshakeError,
> {
    if h.msg4 is Some {
        Err(HandshakeError::SlotAlreadyFilled)
    } else if all_zero(key.key_mic@) {
        Err(HandshakeError::InvariantViolation)
    } else if !in_replay_window(h.msg3, key) {
        Err(HandshakeError::ReplayCounterOutOfWindow)
    } else if !in_time_window(h.msg3, key) {
        Err(HandshakeError::TemporalOutOfWindow)
    } else {
        let stored = HandshakeView { msg4: Some(key), ..with_last(h, key) };
        if h.snonce is None && !all_zero(key.key_nonce@) {
            if h.eapol_client is None {
                Ok(
                    HandshakeView {
                        snonce: Some(key.key_nonce),
                        mic: Some(key.key_mic),
                        eapol_client: Some(wire_bytes(key)),
                        ..stored
                    },
                )
            } else {
                Ok(HandshakeView { snonce: Some(key.key_nonce), ..stored })
            }
        } else {
            Ok(stored)
        }
    }
}

/// What a frame does to a record: the record that results, or the reason for
/// which the frame is refused.
pub open spec fn add_key_spec(h: HandshakeView, key: EapolKeyView) -> Result<
    HandshakeView,
    HandshakeError,
> {
    match key.message_type() {
        MessageType::Message1 => add_message1(h, key),
        MessageType::Message2 => add_message2(h, key),
        MessageType::Message3 => add_message3(h, key),
        MessageType::Message4 => add_message4(h, key),
        MessageType::GTK => Err(HandshakeError::WrongKeyType),
        MessageType::Error => Err(HandshakeError::WrongKeyType),
    }
}

impl HandshakeView {
    /// A record that has seen no frame.
    pub open spec fn empty() -> HandshakeView {
        HandshakeView {
            msg1: None,
            msg2: None,
            msg3: None,
            msg4: None,
            last_msg: None,
            eapol_client: None,
            mic: None,
            anonce: None,
            snonce: None,
            apless: false,
            nc: false,
            l_endian: false,
            b_endian: false,
            pmkid: None,
            mac_ap: None,
            mac_client: None,
            essid: None,
        }
    }

    /// Whether some message has been collected.
    pub open spec fn has_message(self) -> bool {
        self.msg1 is Some || self.msg2 is Some || self.msg3 is Some || self.msg4 is Some
    }

    /// What holds of every record that frames have built: each slot holds a
    /// message of its kind; the latest message is one of the collected ones;
    /// the PMKID is that of the first message; without a third message no
    /// nonce correction is recorded; and the two byte-order hints never hold
    /// together.
    pub open spec fn wf(self) -> bool {
        &&& !(self.l_endian && self.b_endian)
        &&& (self.msg3 is None ==> !self.nc && !self.l_endian && !self.b_endian)
        &&& (self.msg1 matches Some(k) ==> k.message_type() == MessageType::Message1)
        &&& (self.msg2 matches Some(k) ==> k.message_type() == MessageType::Message2)
        &&& (self.msg3 matches Some(k) ==> k.message_type() == MessageType::Message3)
        &&& (self.msg4 matches Some(k) ==> k.message_type() == MessageType::Message4)
        &&& self.pmkid == match self.msg1 {
            Some(k) => k.pmkid(),
            None => None,
        }
        &&& (self.last_msg is Some <==> self.has_message())
        &&& (self.last_msg is Some ==> self.last_msg == self.msg1 || self.last_msg == self.msg2
            || self.last_msg == self.msg3 || self.last_msg == self.msg4)
    }

    /// Whether the replay counters of the collected messages rise from each
    /// message to the next in number.
    pub open spec fn counters_rise(self) -> bool {
        &&& (self.msg1 is Some && self.msg2 is Some ==> self.msg1->0.replay_counter
            < self.msg2->0.replay_counter)
        &&& (self.msg2 is Some && self.msg3 is Some ==> self.msg2->0.replay_counter
            < self.msg3->0.replay_counter)
        &&& (self.msg3 is Some && self.msg4 is Some ==> self.msg3->0.replay_counter
            < self.msg4->0.replay_counter)
    }

    /// Whether everything that the EAPOL line needs is present.
    pub open spec fn complete(self) -> bool {
        self.eapol_client is Some && self.mic is Some && self.anonce is Some && self.snonce is Some
            && self.mac_ap is Some && self.mac_client is Some && self.essid is Some
    }
}

/// Whether every byte of `bytes` is zero.
pub fn is_zero(bytes: &[u8]) -> (zero: bool)
    ensures
        zero == all_zero(bytes@),
{
    let mut i: usize = 0;
    while i < bytes.len()
        invariant
            i <= bytes.len(),
            forall|j: int| 0 <= j < i ==> bytes@[j] == 0,
        decreases bytes.len() - i,
    {
        if bytes[i] != 0 {
            return false;
        }
        i = i + 1;
    }
    true
}

/// Whether two byte strings agree from `from` up to `to`.
pub fn same_range(a: &[u8], b: &[u8], from: usize, to: usize) -> (same: bool)
    requires
        from <= to <= a@.len(),
        to <= b@.len(),
    ensures
        same == (a@.subrange(from as int, to as int) == b@.subrange(from as int, to as int)),
{
    let mut i: usize = from;
    while i < to
        invariant
            from <= i <= to,
            to <= a@.len(),
            to <= b@.len(),
            forall|j: int| from <= j < i ==> a@[j] == b@[j],
        decreases to - i,
    {
        if a[i] != b[i] {
            assert(a@.subrange(from as int, to as int)[i - from] == a@[i as int]);
            assert(b@.subrange(from as int, to as int)[i - from] == b@[i as int]);
            return false;
        }
        i = i + 1;
    }
    assert(a@.subrange(from as int, to as int) =~= b@.subrange(from as int, to as int));
    true
}

/// Whether `key` may follow `prev` by its replay counter.
fn follows_counter(prev: &Option<EapolKey>, key: &EapolKey) -> (ok: bool)
    ensures
        ok == in_replay_window(view_opt(*prev), key@),
{
    match prev {
        Some(p) => key.replay_counter > p.replay_counter && key.replay_counter - p.replay_counter
            <= MAX_REPLAY_STEP,
        None => true,
    }
}

/// Whether `key` may follow `prev` by its time of capture.
fn follows_in_time(prev: &Option<EapolKey>, key: &EapolKey) -> (ok: bool)
    ensures
        ok == in_time_window(view_opt(*prev), key@),
{
    match prev {
        Some(p) => key.timestamp <= p.timestamp || key.timestamp - p.timestamp <= MAX_MESSAGE_GAP,
        None => true,
    }
}

impl Clone for FourWayHandshake {
    fn clone(&self) -> (copy: Self)
        ensures
            copy@ == self@,
    {
        let copy = FourWayHandshake {
            msg1: clone_key(&self.msg1),
            msg2: clone_key(&self.msg2),
            msg3: clone_key(&self.msg3),
            msg4: clone_key(&self.msg4),
            last_msg: clone_key(&self.last_msg),
            eapol_client: match &self.eapol_client {
                Some(bytes) => Some(bytes.clone()),
                None => None,
            },
            mic: self.mic,
            anonce: self.anonce,
            snonce: self.snonce,
            apless: self.apless,
            nc: self.nc,
            l_endian: self.l_endian,
            b_endian: self.b_endian,
            pmkid: self.pmkid,
            mac_ap: self.mac_ap,
            mac_client: self.mac_client,
            essid: match &self.essid {
                Some(name) => Some(name.clone()),
                None => None,
            },
        };
        assert(copy@ =~~= self@);
        copy
    }
}

impl Default for FourWayHandshake {
    fn default() -> (h: Self)
        ensures
            h@ == HandshakeView::empty(),
    {
        FourWayHandshake::new()
    }
}

/// A copy of an optional frame.
fn clone_key(key: &Option<EapolKey>) -> (copy: Option<EapolKey>)
    ensures
        view_opt(copy) == view_opt(*key),
{
    match key {
        Some(k) => Some(k.clone()),
        None => None,
    }
}

impl FourWayHandshake {
    /// A record that has seen no frame.
    pub fn new() -> (h: Self)
        ensures
            h@ == HandshakeView::empty(),
    {
        FourWayHandshake {
            msg1: None,
            msg2: None,
            msg3: None,
            msg4: None,
            last_msg: None,
            eapol_client: None,
            mic: None,
            anonce: None,
            snonce: None,
            apless: false,
            nc: false,
            l_endian: false,
            b_endian: false,
            pmkid: None,
            mac_ap: None,
            mac_client: None,
            essid: None,
        }
    }

    /// Whether the record holds everything that the EAPOL line needs.
    pub fn complete(&self) -> (done: bool)
        ensures
            done == self@.complete(),
    {
        self.eapol_client.is_some() && self.mic.is_some() && self.anonce.is_some()
            && self.snonce.is_some() && self.mac_ap.is_some() && self.mac_client.is_some()
            && self.essid.is_some()
    }

    /// Whether a first message has been collected.
    pub fn has_m1(&self) -> (has: bool)
        ensures
            has == self@.msg1 is Some,
    {
        self.msg1.is_some()
    }

    /// Whether a PMKID has been collected.
    pub fn has_pmkid(&self) -> (has: bool)
        ensures
            has == self@.pmkid is Some,
    {
        self.pmkid.is_some()
    }

    /// The network name, or the empty string where none is known.
    pub fn essid_to_string(&self) -> (name: String)
        ensures
            name@ == match self@.essid {
                Some(essid) => essid,
                None => Seq::<char>::empty(),
            },
    {
        match &self.essid {
            Some(essid) => essid.clone(),
            None => String::new(),
        }
    }

    /// Takes `new_key` into the record if the rules of its message allow it,
    /// and says why not otherwise.  A refused frame leaves the record as it
    /// was.
    pub fn add_key(&mut self, new_key: &EapolKey) -> (res: Result<(), HandshakeError>)
        ensures
            match add_key_spec(old(self)@, new_key@) {
                Ok(h) => res is Ok && final(self)@ == h,
                Err(e) => res == Err::<(), HandshakeError>(e) && final(self)@ == old(self)@,
            },
            old(self)@.wf() ==> final(self)@.wf(),
    {
        match new_key.determine_key_type() {
            MessageType::Message1 => self.add_first(new_key),
            MessageType::Message2 => self.add_second(new_key),
            MessageType::Message3 => self.add_third(new_key),
            MessageType::Message4 => self.add_fourth(new_key),
            MessageType::GTK => Err(HandshakeError::WrongKeyType),
            MessageType::Error => Err(HandshakeError::WrongKeyType),
        }
    }

    fn add_first(&mut self, key: &EapolKey) -> (res: Result<(), HandshakeError>)
        ensures
            match add_message1(old(self)@, key@) {
                Ok(h) => res is Ok && final(self)@ == h,
                Err(e) => res == Err::<(), HandshakeError>(e) && final(self)@ == old(self)@,
            },
    {
        if self.msg1.is_some() {
            return Err(HandshakeError::SlotAlreadyFilled);
        }
        if !is_zero(&key.key_mic) {
            return Err(HandshakeError::InvariantViolation);
        }
        if let Some(pmkid) = key.has_pmkid() {
            self.pmkid = Some(pmkid);
        }
        self.anonce = Some(key.key_nonce);
        self.msg1 = Some(key.clone());
        self.last_msg = Some(key.clone());
        assert(self@ =~~= add_message1(old(self)@, key@)->Ok_0);
        Ok(())
    }

    fn add_second(&mut self, key: &EapolKey) -> (res: Result<(), HandshakeError>)
        ensures
            match add_message2(old(self)@, key@) {
                Ok(h) => res is Ok && final(self)@ == h,
                Err(e) => res == Err::<(), HandshakeError>(e) && final(self)@ == old(self)@,
            },
    {
        if self.msg2.is_some() {
            return Err(HandshakeError::SlotAlreadyFilled);
        }
        if is_zero(&key.key_mic) || is_zero(&key.key_nonce) {
            return Err(HandshakeError::InvariantViolation);
        }
        if !follows_counter(&self.msg1, key) {
            return Err(HandshakeError::ReplayCounterOutOfWindow);
        }
        if !follows_in_time(&self.msg1, key) {
            return Err(HandshakeError::TemporalOutOfWindow);
        }
        self.snonce = Some(key.key_nonce);
        self.mic = Some(key.key_mic);
        self.eapol_client = Some(key.to_bytes());
        self.msg2 = Some(key.clone());
        self.last_msg = Some(key.clone());
        assert(self@ =~~= add_message2(old(self)@, key@)->Ok_0);
        Ok(())
    }

    fn add_third(&mut self, key: &EapolKey) -> (res: Result<(), HandshakeError>)
        ensures
            match add_message3(old(self)@, key@) {
                Ok(h) => res is Ok && final(self)@ == h,
                Err(e) => res == Err::<(), HandshakeError>(e) && final(self)@ == old(self)@,
            },
    {
        if self.msg3.is_some() {
            return Err(HandshakeError::SlotAlreadyFilled);
        }
        if is_zero(&key.key_mic) || is_zero(&key.key_nonce) {
            return Err(HandshakeError::InvariantViolation);
        }
        if let Some(anonce) = &self.anonce {
            if !same_range(anonce, &key.key_nonce, 0, 28) {
                return Err(HandshakeError::AnonceMismatch);
            }
        }
        if !follows_counter(&self.msg2, key) {
            return Err(HandshakeError::ReplayCounterOutOfWindow);
        }
        if !follows_in_time(&self.msg2, key) {
            return Err(HandshakeError::TemporalOutOfWindow);
        }
        match self.anonce {
            Some(anonce) => {
                if !same_range(&anonce, &key.key_nonce, 28, 32) {
                    self.nc = true;
                    if anonce[31] != key.key_nonce[31] {
                        self.l_endian = true;
                    } else if anonce[28] != key.key_nonce[28] {
                        self.b_endian = true;
                    }
                }
            },
            None => {
                self.anonce = Some(key.key_nonce);
                self.nc = false;
            },
        }
        self.msg3 = Some(key.clone());
        self.last_msg = Some(key.clone());
        assert(self@ =~~= add_message3(old(self)@, key@)->Ok_0);
        Ok(())
    }

    fn add_fourth(&mut self, key: &EapolKey) -> (res: Result<(), HandshakeError>)
        ensures
            match add_message4(old(self)@, key@) {
                Ok(h) => res is Ok && final(self)@ == h,
                Err(e) => res == Err::<(), HandshakeError>(e) && final(self)@ == old(self)@,
            },
    {
        if self.msg4.is_some() {
            return Err(HandshakeError::SlotAlreadyFilled);
        }
        if is_zero(&key.key_mic) {
            return Err(HandshakeError::InvariantViolation);
        }
        if !follows_counter(&self.msg3, key) {
            return Err(HandshakeError::ReplayCounterOutOfWindow);
        }
        if !follows_in_time(&self.msg3, key) {
            return Err(HandshakeError::TemporalOutOfWindow);
        }
        self.msg4 = Some(key.clone());
        self.last_msg = Some(key.clone());
        if self.snonce.is_none() && !is_zero(&key.key_nonce) {
            self.snonce = Some(key.key_nonce);
            if self.eapol_client.is_none() {
                self.mic = Some(key.key_mic);
                self.eapol_client = Some(key.to_bytes());
            }
        }
        assert(self@ =~~= add_message4(old(self)@, key@)->Ok_0);
        Ok(())
    }
}

/// The mark that the table shows for something collected, and the one for
/// something missing.
pub open spec fn mark(present: bool) -> Seq<char> {
    if present {
        "\u{2705}"@
    } else {
        "--"@
    }
}

/// The collected messages of a record with their numbers, first to fourth.
pub open spec fn eapol_keys(h: HandshakeView) -> Seq<(u8, EapolKeyView)> {
    (if h.msg1 is Some { seq![(1u8, h.msg1->0)] } else { Seq::empty() })
        + (if h.msg2 is Some { seq![(2u8, h.msg2->0)] } else { Seq::empty() })
        + (if h.msg3 is Some { seq![(3u8, h.msg3->0)] } else { Seq::empty() })
        + (if h.msg4 is Some { seq![(4u8, h.msg4->0)] } else { Seq::empty() })
}

/// The values of a list of numbered frames.
pub open spec fn numbered_views(keys: Seq<(u8, EapolKey)>) -> Seq<(u8, EapolKeyView)> {
    Seq::new(keys.len(), |i: int| (keys[i].0, keys[i].1@))
}

/// The one-line summary of a record: a mark for each message, for the MIC, for
/// the PMKID and for completeness, in columns.
pub open spec fn summary_text(h: HandshakeView) -> Seq<char> {
    " "@ + column(h.msg1 is Some) + " "@ + column(h.msg2 is Some) + " "@ + column(h.msg3 is Some)
        + " "@ + column(h.msg4 is Some) + " "@ + column(h.mic is Some) + "     "@ + wide_mark(
        h.pmkid is Some,
    ) + "    "@ + "   "@ + wide_mark(h.complete()) + "   "@
}

/// A mark in a column two characters wide: the check mark is one character
/// and is followed by a space.
pub open spec fn column(present: bool) -> Seq<char> {
    if present {
        "\u{2705} "@
    } else {
        "--"@
    }
}

/// A mark that is two characters wide by itself: the check mark is followed
/// by a NUL character.
pub open spec fn wide_mark(present: bool) -> Seq<char> {
    if present {
        "\u{2705}\0"@
    } else {
        "--"@
    }
}

/// The mark for `present` as a string.
pub fn mark_string(present: bool) -> (text: String)
    ensures
        text@ == mark(present),
{
    if present {
        String::from_str("\u{2705}")
    } else {
        String::from_str("--")
    }
}

impl FourWayHandshake {
    /// The marks of a table row: one for each message, then MIC, PMKID and
    /// completeness.
    pub fn data_to_string(&self) -> (marks: (String, String, String, String, String, String, String))
        ensures
            marks.0@ == mark(self@.msg1 is Some),
            marks.1@ == mark(self@.msg2 is Some),
            marks.2@ == mark(self@.msg3 is Some),
            marks.3@ == mark(self@.msg4 is Some),
            marks.4@ == mark(self@.mic is Some),
            marks.5@ == mark(self@.pmkid is Some),
            marks.6@ == mark(self@.complete()),
    {
        (
            mark_string(self.msg1.is_some()),
            mark_string(self.msg2.is_some()),
            mark_string(self.msg3.is_some()),
            mark_string(self.msg4.is_some()),
            mark_string(self.mic.is_some()),
            mark_string(self.has_pmkid()),
            mark_string(self.complete()),
        )
    }

    /// The collected messages with their numbers, first to fourth.
    pub fn get_eapol_keys(&self) -> (keys: Vec<(u8, EapolKey)>)
        ensures
            numbered_views(keys@) == eapol_keys(self@),
    {
        let mut keys: Vec<(u8, EapolKey)> = Vec::new();
        if let Some(key) = &self.msg1 {
            keys.push((1, key.clone()));
        }
        if let Some(key) = &self.msg2 {
            keys.push((2, key.clone()));
        }
        if let Some(key) = &self.msg3 {
            keys.push((3, key.clone()));
        }
        if let Some(key) = &self.msg4 {
            keys.push((4, key.clone()));
        }
        assert(numbered_views(keys@) =~= eapol_keys(self@));
        keys
    }

    /// The one-line summary of the record.
    pub fn to_string(&self) -> (text: String)
        ensures
            text@ == summary_text(self@),
    {
        let mut text = String::new();
        text.append(" ");
        text.append(column_str(self.msg1.is_some()));
        text.append(" ");
        text.append(column_str(self.msg2.is_some()));
        text.append(" ");
        text.append(column_str(self.msg3.is_some()));
        text.append(" ");
        text.append(column_str(self.msg4.is_some()));
        text.append(" ");
        text.append(column_str(self.mic.is_some()));
        text.append("     ");
        text.append(wide_mark_str(self.has_pmkid()));
        text.append("    ");
        text.append("   ");
        text.append(wide_mark_str(self.complete()));
        text.append("   ");
        assert(text@ =~= summary_text(self@));
        text
    }
}

fn column_str(present: bool) -> (text: &'static str)
    ensures
        text@ == column(present),
{
    if present {
        "\u{2705} "
    } else {
        "--"
    }
}

fn wide_mark_str(present: bool) -> (text: &'static str)
    ensures
        text@ == wide_mark(present),
{
    if present {
        "\u{2705}\0"
    } else {
        "--"
    }
}

} // verus!
