use wpa_handshake::eapol::EapolKey;
use wpa_handshake::handshake::HandshakeError;
use wpa_handshake::mac::MacAddress;
use wpa_handshake::storage::{HandshakeSessionKey, HandshakeStorage};

const M1: u16 = 0x008a;
const M2: u16 = 0x010a;
const M3: u16 = 0x13ca;
const M4: u16 = 0x030a;
const BASE: u128 = 1_700_000_000_000_000_000;
const SECOND: u128 = 1_000_000_000;
const AP: MacAddress = MacAddress([0xaa, 0xbb, 0xcc, 0xdd, 0xee, 0xff]);
const CL: MacAddress = MacAddress([0x11, 0x22, 0x33, 0x44, 0x55, 0x66]);
const OTHER: MacAddress = MacAddress([0x01, 0x02, 0x03, 0x04, 0x05, 0x06]);

fn nonce(last: u8) -> [u8; 32] {
    let mut n = [0u8; 32];
    n[31] = last;
    n
}

fn frame(kind: u16, rc: u64, key_nonce: [u8; 32], mic: u8, at: u128) -> EapolKey {
    EapolKey {
        protocol_version: 1,
        timestamp: at,
        packet_type: 3,
        packet_length: 95,
        descriptor_type: 2,
        key_information: kind,
        key_length: 16,
        replay_counter: rc,
        key_nonce,
        key_iv: [0; 16],
        key_rsc: 0,
        key_id: 0,
        key_mic: [mic; 16],
        key_data_length: 0,
        key_data: Vec::new(),
    }
}

fn name() -> Option<String> {
    Some("test".to_string())
}

#[test]
fn new_store_is_empty() {
    let store = HandshakeStorage::new();
    assert_eq!(store.count(), 0);
    assert!(store.get_handshakes().is_empty());
    assert!(store.find_handshakes_by_ap(&AP).is_empty());
    assert!(!store.has_complete_handshake_for_ap(&AP));
    assert!(!store.has_m1_for_ap(&AP));
    assert!(store.table_times().is_empty());
}

#[test]
fn intake_routes_a_handshake_to_one_record() {
    let mut store = HandshakeStorage::new();
    let snap = store.add_or_update_handshake(&AP, &CL, frame(M1, 1, nonce(1), 0, BASE), name()).unwrap();
    assert!(snap.has_m1());
    assert_eq!(snap.mac_ap, Some(AP));
    assert_eq!(snap.mac_client, Some(CL));
    assert_eq!(snap.essid, name());
    assert!(store.has_m1_for_ap(&AP));
    assert!(!store.has_m1_for_ap(&CL));
    assert!(!store.has_complete_handshake_for_ap(&AP));
    let snap = store.add_or_update_handshake(&AP, &CL, frame(M2, 2, nonce(2), 0xab, BASE), name()).unwrap();
    assert!(snap.complete());
    let snap = store.add_or_update_handshake(&AP, &CL, frame(M3, 3, nonce(1), 0xab, BASE), name()).unwrap();
    assert!(snap.msg3.is_some());
    let snap = store.add_or_update_handshake(&AP, &CL, frame(M4, 4, nonce(2), 0xab, BASE), name()).unwrap();
    assert_eq!(snap.get_eapol_keys().len(), 4);
    assert_eq!(snap.message_pair_byte(), 0x02);
    assert!(snap.to_hashcat_22000_format().unwrap().ends_with("*02"));
    assert_eq!(store.count(), 1);
    assert!(store.has_complete_handshake_for_ap(&AP));
    assert!(!store.has_complete_handshake_for_ap(&OTHER));
    let all = store.get_handshakes();
    assert_eq!(all.len(), 1);
    assert_eq!(all[0].0, HandshakeSessionKey::new(AP, CL));
    assert_eq!(all[0].1.len(), 1);
    assert_eq!(all[0].1[0].get_eapol_keys().len(), 4);
}

#[test]
fn same_frame_twice_opens_a_second_record() {
    let mut store = HandshakeStorage::new();
    let key = frame(M1, 1, nonce(1), 0, BASE);
    let first = store.add_or_update_handshake(&AP, &CL, key.clone(), name()).unwrap();
    let second = store.add_or_update_handshake(&AP, &CL, key, name()).unwrap();
    assert_eq!(format!("{:?}", first), format!("{:?}", second));
    assert_eq!(store.count(), 2);
    let all = store.get_handshakes();
    assert_eq!(all.len(), 1);
    assert_eq!(format!("{:?}", all[0].1[0]), format!("{:?}", first));
    assert_eq!(format!("{:?}", all[0].1[1]), format!("{:?}", first));
    assert_eq!(all[0].1[0].get_eapol_keys().len(), 1);
}

#[test]
fn refused_frame_opens_an_empty_bucket_only() {
    let mut store = HandshakeStorage::new();
    let bad = frame(M2, 1, nonce(2), 0, BASE);
    let res = store.add_or_update_handshake(&AP, &CL, bad.clone(), name());
    assert_eq!(res.err(), Some(HandshakeError::InvariantViolation));
    assert_eq!(store.count(), 0);
    let all = store.get_handshakes();
    assert_eq!(all.len(), 1);
    assert!(all[0].1.is_empty());
    let res = store.add_or_update_handshake(&AP, &CL, bad, name());
    assert_eq!(res.err(), Some(HandshakeError::InvariantViolation));
    assert_eq!(store.get_handshakes().len(), 1);
    let gtk = frame(0x0382, 1, nonce(2), 0xab, BASE);
    let res = store.add_or_update_handshake(&AP, &OTHER, gtk, None);
    assert_eq!(res.err(), Some(HandshakeError::WrongKeyType));
    assert_eq!(store.get_handshakes().len(), 2);
    assert_eq!(store.count(), 0);
}

#[test]
fn stale_second_message_leaves_the_first_record_alone() {
    let mut store = HandshakeStorage::new();
    store.add_or_update_handshake(&AP, &CL, frame(M1, 1, nonce(1), 0, BASE), name()).unwrap();
    let late = frame(M2, 2, nonce(2), 0xab, BASE + 3 * SECOND);
    let mut probe = store.get_handshakes()[0].1[0].clone();
    assert_eq!(probe.add_key(&late), Err(HandshakeError::TemporalOutOfWindow));
    let snap = store.add_or_update_handshake(&AP, &CL, late, name()).unwrap();
    assert!(!snap.has_m1());
    assert!(snap.msg2.is_some());
    let all = store.get_handshakes();
    assert_eq!(all[0].1.len(), 2);
    assert_eq!(all[0].1[0].get_eapol_keys().len(), 1);
    assert!(all[0].1[0].has_m1());
    assert!(all[0].1[0].msg2.is_none());
}

#[test]
fn first_record_that_accepts_takes_the_frame() {
    let mut store = HandshakeStorage::new();
    store.add_or_update_handshake(&AP, &CL, frame(M1, 1, nonce(1), 0, BASE), name()).unwrap();
    store.add_or_update_handshake(&AP, &CL, frame(M1, 5, nonce(7), 0, BASE), name()).unwrap();
    let snap = store.add_or_update_handshake(&AP, &CL, frame(M2, 6, nonce(2), 0xab, BASE), name()).unwrap();
    assert_eq!(snap.msg1.as_ref().map(|k| k.replay_counter), Some(5));
    let snap = store.add_or_update_handshake(&AP, &CL, frame(M2, 2, nonce(3), 0xab, BASE), name()).unwrap();
    assert_eq!(snap.msg1.as_ref().map(|k| k.replay_counter), Some(1));
    assert_eq!(store.count(), 2);
}

#[test]
fn buckets_are_kept_by_pair_in_order_of_opening() {
    let mut store = HandshakeStorage::new();
    store.add_or_update_handshake(&AP, &CL, frame(M1, 1, nonce(1), 0, BASE), name()).unwrap();
    store.add_or_update_handshake(&AP, &OTHER, frame(M1, 1, nonce(1), 0, BASE), None).unwrap();
    store.add_or_update_handshake(&OTHER, &CL, frame(M2, 1, nonce(1), 0xab, BASE), name()).unwrap();
    store.add_or_update_handshake(&AP, &OTHER, frame(M1, 2, nonce(1), 0, BASE), None).unwrap();
    assert_eq!(store.count(), 4);
    let all = store.get_handshakes();
    assert_eq!(
        all.iter().map(|b| (b.0, b.1.len())).collect::<Vec<_>>(),
        vec![
            (HandshakeSessionKey::new(AP, CL), 1),
            (HandshakeSessionKey::new(AP, OTHER), 2),
            (HandshakeSessionKey::new(OTHER, CL), 1)
        ]
    );
    let of_ap = store.find_handshakes_by_ap(&AP);
    assert_eq!(of_ap.iter().map(|b| (b.0, b.1.len())).collect::<Vec<_>>(), vec![(CL, 1), (OTHER, 2)]);
    assert_eq!(store.find_handshakes_by_ap(&OTHER).len(), 1);
    assert!(store.find_handshakes_by_ap(&CL).is_empty());
    assert!(store.has_m1_for_ap(&AP));
    assert!(!store.has_m1_for_ap(&OTHER));
    assert!(!store.has_complete_handshake_for_ap(&AP));
    assert!(!store.has_complete_handshake_for_ap(&OTHER));
}

#[test]
fn record_without_name_carries_the_addresses_only() {
    let mut store = HandshakeStorage::new();
    let snap = store.add_or_update_handshake(&AP, &CL, frame(M1, 1, nonce(1), 0, BASE), None).unwrap();
    assert_eq!(snap.mac_ap, Some(AP));
    assert_eq!(snap.mac_client, Some(CL));
    assert_eq!(snap.essid, None);
    let snap = store.add_or_update_handshake(&AP, &CL, frame(M2, 2, nonce(2), 0xab, BASE), name()).unwrap();
    assert_eq!(snap.essid, name());
    assert!(snap.complete());
}

#[test]
fn clone_of_a_store_holds_the_same_records() {
    let mut store = HandshakeStorage::new();
    store.add_or_update_handshake(&AP, &CL, frame(M1, 1, nonce(1), 0, BASE), name()).unwrap();
    store.add_or_update_handshake(&AP, &OTHER, frame(M4, 1, nonce(1), 0xab, BASE), None).unwrap();
    let copy = store.clone();
    assert_eq!(format!("{:?}", copy), format!("{:?}", store));
    assert_eq!(copy.count(), 2);
}
