//! What holds of records and of the hashcat export, whatever frames arrive.

use vstd::prelude::*;
use crate::eapol::{EapolKeyView, MessageType};
use crate::export::{eapol_line, export_text, pmkid_line};
use crate::handshake::{add_key_spec, HandshakeError, HandshakeView};

verus! {

/// A record that has seen no frame is well formed.
pub proof fn lemma_empty_record_wf()
    ensures
        HandshakeView::empty().wf(),
        HandshakeView::empty().counters_rise(),
        !HandshakeView::empty().complete(),
{
}

/// A frame that a well-formed record accepts leaves it well formed.  In
/// particular at most one of the two byte-order hints holds afterwards, and
/// the record has a latest message.
pub proof fn lemma_add_key_keeps_wf(h: HandshakeView, key: EapolKeyView)
    requires
        h.wf(),
        add_key_spec(h, key) is Ok,
    ensures
        add_key_spec(h, key)->Ok_0.wf(),
        !(add_key_spec(h, key)->Ok_0.l_endian && add_key_spec(h, key)->Ok_0.b_endian),
        add_key_spec(h, key)->Ok_0.last_msg == Some(key),
{
}

/// An accepted frame fills the slot of its kind, which was empty, and leaves
/// the other three slots, the addresses and the network name as they were.
pub proof fn lemma_add_key_fills_one_slot(h: HandshakeView, key: EapolKeyView)
    requires
        add_key_spec(h, key) is Ok,
    ensures
        ({
            let r = add_key_spec(h, key)->Ok_0;
            &&& r.mac_ap == h.mac_ap && r.mac_client == h.mac_client && r.essid == h.essid
            &&& r.apless == h.apless
            &&& match key.message_type() {
                MessageType::Message1 => h.msg1 is None && r.msg1 == Some(key) && r.msg2 == h.msg2
                    && r.msg3 == h.msg3 && r.msg4 == h.msg4,
                MessageType::Message2 => h.msg2 is None && r.msg2 == Some(key) && r.msg1 == h.msg1
                    && r.msg3 == h.msg3 && r.msg4 == h.msg4,
                MessageType::Message3 => h.msg3 is None && r.msg3 == Some(key) && r.msg1 == h.msg1
                    && r.msg2 == h.msg2 && r.msg4 == h.msg4,
                MessageType::Message4 => h.msg4 is None && r.msg4 == Some(key) && r.msg1 == h.msg1
                    && r.msg2 == h.msg2 && r.msg3 == h.msg3,
                _ => false,
            }
        }),
{
}

/// A frame of a kind that the record already holds is refused, whatever else
/// it carries.
pub proof fn lemma_filled_slot_refuses(h: HandshakeView, key: EapolKeyView)
    requires
        match key.message_type() {
            MessageType::Message1 => h.msg1 is Some,
            MessageType::Message2 => h.msg2 is Some,
            MessageType::Message3 => h.msg3 is Some,
            MessageType::Message4 => h.msg4 is Some,
            _ => false,
        },
    ensures
        add_key_spec(h, key) == Err::<HandshakeView, HandshakeError>(
            HandshakeError::SlotAlreadyFilled,
        ),
{
}

/// The message before the one that `key` is, as far as `h` holds it.
pub open spec fn preceding(h: HandshakeView, key: EapolKeyView) -> Option<EapolKeyView> {
    match key.message_type() {
        MessageType::Message2 => h.msg1,
        MessageType::Message3 => h.msg2,
        MessageType::Message4 => h.msg3,
        _ => None,
    }
}

/// The message after the one that `key` is, as far as `h` holds it.
pub open spec fn following(h: HandshakeView, key: EapolKeyView) -> Option<EapolKeyView> {
    match key.message_type() {
        MessageType::Message1 => h.msg2,
        MessageType::Message2 => h.msg3,
        MessageType::Message3 => h.msg4,
        _ => None,
    }
}

/// An accepted frame follows the message before it, where the record holds
/// that message: its replay counter is greater, by three at most, and it came
/// no more than two seconds later.
pub proof fn lemma_accepted_key_follows(h: HandshakeView, key: EapolKeyView)
    requires
        add_key_spec(h, key) is Ok,
        preceding(h, key) is Some,
    ensures
        preceding(h, key)->0.replay_counter < key.replay_counter <= preceding(
            h,
            key,
        )->0.replay_counter + 3,
        key.timestamp - preceding(h, key)->0.timestamp <= 2_000_000_000,
{
}

/// In a record whose messages arrive in the order of their numbers, the
/// replay counters rise from each message to the next: an accepted frame
/// keeps them rising where the record holds no message after it.
pub proof fn lemma_counters_keep_rising(h: HandshakeView, key: EapolKeyView)
    requires
        h.counters_rise(),
        add_key_spec(h, key) is Ok,
        following(h, key) is None,
    ensures
        add_key_spec(h, key)->Ok_0.counters_rise(),
{
}

/// What an accepted frame does to the ANonce.  A first message sets it to its
/// nonce.  Every other message leaves an ANonce that is set as it is; a third
/// message is accepted only if its nonce agrees with it in the first 28 bytes,
/// and gives the ANonce where none was set.
pub proof fn lemma_anonce_is_kept(h: HandshakeView, key: EapolKeyView)
    requires
        add_key_spec(h, key) is Ok,
    ensures
        ({
            let r = add_key_spec(h, key)->Ok_0;
            &&& key.message_type() == MessageType::Message1 ==> r.anonce == Some(key.key_nonce)
            &&& key.message_type() != MessageType::Message1 && h.anonce is Some ==> r.anonce
                == h.anonce
            &&& key.message_type() == MessageType::Message3 && h.anonce is Some
                ==> h.anonce->0@.subrange(0, 28) == key.key_nonce@.subrange(0, 28)
            &&& key.message_type() == MessageType::Message3 && h.anonce is None ==> r.anonce
                == Some(key.key_nonce)
        }),
{
}

/// What a record does with a frame depends on the record and the frame alone:
/// a frame that was refused is refused again, for the same reason, as long as
/// the record has not changed.
pub proof fn lemma_refusal_repeats(h: HandshakeView, again: HandshakeView, key: EapolKeyView)
    requires
        add_key_spec(h, key) is Err,
        again == h,
    ensures
        add_key_spec(again, key) == add_key_spec(h, key),
{
}

/// A complete record exports a text that is not empty and ends with its
/// EAPOL line, which opens with `WPA*02*` and stands at the start of the text
/// or behind a line feed.
pub proof fn lemma_complete_record_exports(h: HandshakeView)
    requires
        h.complete(),
    ensures
        export_text(h) is Some,
        eapol_line(h) is Some,
        export_text(h)->0.len() > 0,
        eapol_line(h)->0.subrange(0, 7) == seq!['W', 'P', 'A', '*', '0', '2', '*'],
        ({
            let text = export_text(h)->0;
            let line = eapol_line(h)->0;
            let at = text.len() - line.len();
            &&& 0 <= at
            &&& text.subrange(at, text.len() as int) == line
            &&& (at == 0 || text[at - 1] == '\n')
        }),
{
    reveal_strlit("WPA*02*");
    reveal_strlit("\n");
    let line = eapol_line(h)->0;
    assert(line.subrange(0, 7) =~= seq!['W', 'P', 'A', '*', '0', '2', '*']);
    let text = export_text(h)->0;
    match pmkid_line(h) {
        Some(first) => {
            assert(text =~= first + "\n"@ + line);
            let at = text.len() - line.len();
            assert(text.subrange(at, text.len() as int) =~= line);
        },
        None => {
            assert(text.subrange(0, text.len() as int) =~= line);
        },
    }
}

/// A record that is not complete exports its PMKID line alone, and nothing
/// where it has none.
pub proof fn lemma_incomplete_record_exports(h: HandshakeView)
    requires
        !h.complete(),
    ensures
        export_text(h) == pmkid_line(h),
{
}

/// The export is a function of the state of the record: two records in the
/// same state export the same text.
pub proof fn lemma_export_depends_on_state(a: HandshakeView, b: HandshakeView)
    requires
        a == b,
    ensures
        export_text(a) == export_text(b),
{
}

} // verus!
