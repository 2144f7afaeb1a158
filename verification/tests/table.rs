use wpa_handshake::eapol::EapolKey;
use wpa_handshake::handshake::FourWayHandshake;
use wpa_handshake::mac::MacAddress;
use wpa_handshake::order::order_by_time;
use wpa_handshake::storage::{clock_text_of, HandshakeStorage};
use wpa_handshake::table::{
    add_handshake_header_row, add_handshake_message_row, build_row, relative_millis, table_headers,
};

const M1: u16 = 0x008a;
const M2: u16 = 0x010a;
const M4: u16 = 0x030a;
const BASE: u128 = 1_700_000_000_000_000_000;
const MS: u128 = 1_000_000;
const AP: MacAddress = MacAddress([0xaa, 0xbb, 0xcc, 0xdd, 0xee, 0xff]);
const CL: MacAddress = MacAddress([0x11, 0x22, 0x33, 0x44, 0x55, 0x66]);
const OTHER: MacAddress = MacAddress([0x01, 0x02, 0x03, 0x04, 0x05, 0x06]);

fn nonce(last: u8) -> [u8; 32] {
    let mut n = [0u8; 32];
    n[30] = 0x7f;
    n[31] = last;
    n
}

fn frame(kind: u16, rc: u64, key_nonce: [u8; 32], mic: u8, at: u128) -> EapolKey {
    EapolKey {
        protocol_version: 1,
        timestamp: at,
        packet_type: 3,
        packet_length: 95,
        descriptor_type: 2,
        key_information: kind,
        key_length: 16,
        replay_counter: rc,
        key_nonce,
        key_iv: [0; 16],
        key_rsc: 0,
        key_id: 0,
        key_mic: [mic; 16],
        key_data_length: 0,
        key_data: Vec::new(),
    }
}

fn cells(prefix: &str) -> Vec<String> {
    (0..11).map(|i| format!("{}{}", prefix, i)).collect()
}

#[test]
fn headings_are_the_eleven_columns() {
    assert_eq!(
        table_headers(),
        vec!["Timestamp", "AP MAC", "Client MAC", "SSID", "M1", "M2", "M3", "M4", "MC", "PM", "RD"]
    );
}

#[test]
fn header_row_puts_labels_under_the_first_four_cells() {
    let merged = add_handshake_header_row(cells("c"));
    assert_eq!(
        merged,
        vec![
            "c0\n \u{2514} Relative",
            "c1\n \u{2514} MIC",
            "c2\n \u{2514} ReplayCounter",
            "c3\n \u{2514} NOnce Trail",
            "c4\n",
            "c5\n",
            "c6\n",
            "c7\n",
            "c8\n",
            "c9\n",
            "c10\n"
        ]
    );
}

#[test]
fn message_row_of_a_second_message() {
    let key = frame(M2, 42, nonce(9), 0xab, BASE + 1500 * MS);
    let merged = add_handshake_message_row(cells("c"), &key, false, BASE);
    assert_eq!(
        merged,
        vec![
            "c0\n  \u{251c} 1500ms".to_string(),
            format!("c1\n  \u{251c} {}", "ab".repeat(16)),
            "c2\n  \u{251c} 42".to_string(),
            "c3\n  \u{251c} [7f09]".to_string(),
            "c4\n--".to_string(),
            "c5\n\u{2714}".to_string(),
            "c6\n--".to_string(),
            "c7\n--".to_string(),
            "c8\n\u{2714}".to_string(),
            "c9\n--".to_string(),
            "c10".to_string()
        ]
    );
}

#[test]
fn message_row_of_a_first_message_with_pmkid() {
    let mut key = frame(M1, 0, nonce(1), 0, BASE);
    let mut data = vec![0xdd, 0x14, 0x00, 0x0f, 0xac, 0x04];
    data.extend_from_slice(&[0x5a; 16]);
    key.key_data_length = 22;
    key.key_data = data;
    let merged = add_handshake_message_row(cells("c"), &key, true, BASE + 5);
    assert_eq!(merged[0], "c0\n  \u{2514} 0ms");
    assert_eq!(merged[1], format!("c1\n  \u{2514} {}", "00".repeat(16)));
    assert_eq!(merged[2], "c2\n  \u{2514} 0");
    assert_eq!(merged[3], "c3\n  \u{2514} [7f01]");
    assert_eq!(merged[4], "c4\n\u{2714}");
    assert_eq!(merged[5], "c5\n--");
    assert_eq!(merged[8], "c8\n--");
    assert_eq!(merged[9], "c9\n\u{2714}");
    assert_eq!(merged[10], "c10");
}

#[test]
fn relative_time_is_rounded_to_the_nearest_millisecond() {
    assert_eq!(relative_millis(BASE, BASE), 0);
    assert_eq!(relative_millis(BASE, BASE + 7), 0);
    assert_eq!(relative_millis(BASE + 499_999, BASE), 0);
    assert_eq!(relative_millis(BASE + 500_000, BASE), 1);
    assert_eq!(relative_millis(BASE + 1_499_999, BASE), 1);
    assert_eq!(relative_millis(BASE + 2_000 * MS, BASE), 2000);
    assert_eq!(relative_millis(u128::MAX, 0), 340282366920938463463374607431768);
}

#[test]
fn display_order_is_latest_first_and_stable() {
    assert_eq!(order_by_time(&vec![]), Vec::<usize>::new());
    assert_eq!(order_by_time(&vec![5]), vec![0]);
    assert_eq!(order_by_time(&vec![1, 3, 2]), vec![1, 2, 0]);
    assert_eq!(order_by_time(&vec![2, 2, 9, 2, 1, 9]), vec![2, 5, 0, 1, 3, 4]);
}

fn record() -> FourWayHandshake {
    let mut h = FourWayHandshake::new();
    h.mac_ap = Some(AP);
    h.mac_client = Some(CL);
    h.essid = Some("test".to_string());
    h
}

#[test]
fn plain_row_has_eleven_cells_and_height_one() {
    let mut h = record();
    assert_eq!(h.add_key(&frame(M1, 1, nonce(1), 0, BASE)), Ok(()));
    let (row, height) = build_row(&h, "12:34:56", false);
    assert_eq!(height, 1);
    assert_eq!(
        row,
        vec![
            "12:34:56",
            "aa:bb:cc:dd:ee:ff",
            "11:22:33:44:55:66",
            "test",
            "\u{2705}",
            "--",
            "--",
            "--",
            "--",
            "--",
            "--"
        ]
    );
    let (row, height) = build_row(&record(), "x", true);
    assert_eq!(height, 1);
    assert_eq!(row.len(), 11);
    assert_eq!(row[0], "x");
}

#[test]
fn selected_row_lists_the_messages_earliest_first() {
    let mut h = record();
    assert_eq!(h.add_key(&frame(M4, 4, nonce(4), 0xab, BASE + 20 * MS)), Ok(()));
    assert_eq!(h.add_key(&frame(M1, 1, nonce(1), 0, BASE + 30 * MS)), Ok(()));
    assert_eq!(h.add_key(&frame(M2, 2, nonce(2), 0xcd, BASE + 20 * MS)), Ok(()));
    let (row, height) = build_row(&h, "12:34:56", true);
    assert_eq!(height, 5);
    assert_eq!(row.len(), 11);
    assert_eq!(
        row[0],
        "12:34:56\n \u{2514} Relative\n  \u{251c} 0ms\n  \u{251c} 0ms\n  \u{2514} 10ms"
    );
    assert_eq!(
        row[1],
        format!(
            "aa:bb:cc:dd:ee:ff\n \u{2514} MIC\n  \u{251c} {}\n  \u{251c} {}\n  \u{2514} {}",
            "ab".repeat(16),
            "cd".repeat(16),
            "00".repeat(16)
        )
    );
    assert_eq!(
        row[2],
        "11:22:33:44:55:66\n \u{2514} ReplayCounter\n  \u{251c} 4\n  \u{251c} 2\n  \u{2514} 1"
    );
    assert_eq!(
        row[3],
        "test\n \u{2514} NOnce Trail\n  \u{251c} [7f04]\n  \u{251c} [7f02]\n  \u{2514} [7f01]"
    );
    assert_eq!(row[4], "\u{2705}\n\n--\n--\n\u{2714}");
    assert_eq!(row[5], "\u{2705}\n\n--\n\u{2714}\n--");
    assert_eq!(row[6], "--\n\n--\n--\n--");
    assert_eq!(row[7], "\u{2705}\n\n\u{2714}\n--\n--");
    assert_eq!(row[8], "\u{2705}\n\n\u{2714}\n\u{2714}\n--");
    assert_eq!(row[9], "--\n\n--\n--\n--");
    assert_eq!(row[10], "\u{2705}\n");
}

#[test]
fn table_shows_the_latest_record_first() {
    let mut store = HandshakeStorage::new();
    let name = Some("net".to_string());
    store.add_or_update_handshake(&AP, &CL, frame(M1, 1, nonce(1), 0, BASE), name.clone()).unwrap();
    store.add_or_update_handshake(&AP, &OTHER, frame(M1, 1, nonce(1), 0, BASE + 9 * MS), None).unwrap();
    store.add_or_update_handshake(&OTHER, &CL, frame(M1, 1, nonce(1), 0, BASE), name.clone()).unwrap();
    store.add_or_update_handshake(&AP, &CL, frame(M2, 2, nonce(2), 0xab, BASE + 5 * MS), name).unwrap();
    assert_eq!(store.table_times(), vec![BASE + 9 * MS, BASE + 5 * MS, BASE]);
    let clock = vec!["c".to_string(), "b".to_string(), "a".to_string()];
    let (headers, rows) = store.table_with_clock(Some(1), &clock);
    assert_eq!(headers.len(), 11);
    assert_eq!(rows.len(), 3);
    assert_eq!(rows.iter().map(|r| r.1).collect::<Vec<u16>>(), vec![1, 4, 1]);
    assert_eq!(rows[0].0[0], "c");
    assert_eq!(rows[0].0[2], "01:02:03:04:05:06");
    assert_eq!(rows[0].0[3], "");
    assert_eq!(rows[1].0[0], "b\n \u{2514} Relative\n  \u{251c} 0ms\n  \u{2514} 5ms");
    assert_eq!(rows[1].0[1].lines().next(), Some("aa:bb:cc:dd:ee:ff"));
    assert_eq!(rows[1].0[10], "\u{2705}\n");
    assert_eq!(rows[2].0[0], "a");
    assert_eq!(rows[2].0[1], "01:02:03:04:05:06");
    assert_eq!(rows[2].0[3], "net");
    let (_, rows) = store.table_with_clock(None, &clock);
    assert_eq!(rows.iter().map(|r| r.1).collect::<Vec<u16>>(), vec![1, 1, 1]);
    assert_eq!(rows.iter().map(|r| r.0.len()).collect::<Vec<usize>>(), vec![11, 11, 11]);
    assert_eq!(store.count(), 3);
    let (_, rows) = store.table_with_clock(Some(7), &clock);
    assert_eq!(rows.iter().map(|r| r.1).collect::<Vec<u16>>(), vec![1, 1, 1]);
}

#[test]
fn table_of_an_empty_store_has_no_rows() {
    let mut store = HandshakeStorage::new();
    let (headers, rows) = store.table_with_clock(Some(0), &Vec::new());
    assert_eq!(headers[0], "Timestamp");
    assert!(rows.is_empty());
    let (headers, rows) = store.get_table(Some(0), 0, false);
    assert_eq!(headers.len(), 11);
    assert!(rows.is_empty());
}

fn is_time_of_day(text: &str) -> bool {
    let b = text.as_bytes();
    b.len() == 8
        && b[2] == b':'
        && b[5] == b':'
        && [0, 1, 3, 4, 6, 7].iter().all(|i| b[*i].is_ascii_digit())
}

#[test]
fn table_carries_the_time_of_day_in_the_first_column() {
    let mut store = HandshakeStorage::new();
    let name = Some("net".to_string());
    store.add_or_update_handshake(&AP, &CL, frame(M1, 1, nonce(1), 0, BASE), name.clone()).unwrap();
    store.add_or_update_handshake(&AP, &OTHER, frame(M1, 1, nonce(1), 0, BASE + 60_000 * MS), None).unwrap();
    store.add_or_update_handshake(&AP, &CL, frame(M2, 2, nonce(2), 0xab, BASE + 5 * MS), name).unwrap();
    for selected in [None, Some(0), Some(1), Some(2)] {
        let (headers, rows) = store.get_table(selected, 0, false);
        assert_eq!(headers, table_headers());
        assert_eq!(rows.len(), 2);
        let clock: Vec<String> =
            rows.iter().map(|r| r.0[0].lines().next().unwrap().to_string()).collect();
        assert!(clock.iter().all(|c| is_time_of_day(c)));
        assert_ne!(clock[0], clock[1]);
        assert_eq!(clock[0][6..], clock[1][6..]);
        assert_eq!((headers, rows), store.table_with_clock(selected, &clock));
    }
    assert_eq!(store.get_table(Some(1), 9, true), store.get_table(Some(1), 0, false));
    assert_eq!(store.count(), 2);
}

#[test]
fn instant_beyond_the_calendar_gets_dashes_for_a_clock() {
    let mut store = HandshakeStorage::new();
    store.add_or_update_handshake(&AP, &CL, frame(M1, 1, nonce(1), 0, u128::MAX), None).unwrap();
    store.add_or_update_handshake(&AP, &OTHER, frame(M1, 1, nonce(1), 0, 1u128 << 100), None).unwrap();
    let (_, rows) = store.get_table(None, 0, false);
    assert_eq!(rows[0].0[0], "--:--:--");
    assert_eq!(rows[1].0[0], "--:--:--");
    assert_eq!(rows[0].0[2], "11:22:33:44:55:66");
}

#[test]
fn clock_text_is_the_time_of_day_or_dashes() {
    assert_eq!(clock_text_of(Some("07:08:09".to_string())), "07:08:09");
    assert_eq!(clock_text_of(None), "--:--:--");
}
