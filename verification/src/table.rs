//! The rows of the handshake table: one row of eleven cells for each record,
//! and under a selected row one line for each collected message.

use vstd::prelude::*;
use vstd::string::*;
use crate::eapol::{EapolKey, EapolKeyView, MessageType};
use crate::handshake::{
    all_zero, eapol_keys, is_zero, mark, numbered_views, FourWayHandshake, HandshakeView,
};
use crate::mac::mac_text;
use crate::order::{display_order, order_by_time};
use crate::text::{decimal_string, hex_string, push_decimal, push_hex};

verus! {

/// The number of columns of the table.
pub const COLUMNS: usize = 11;

/// The values of a list of strings.
pub open spec fn strings_view(cells: Seq<String>) -> Seq<Seq<char>> {
    Seq::new(cells.len(), |i: int| cells[i]@)
}

/// The headings of the eleven columns.
pub open spec fn headings() -> Seq<Seq<char>> {
    seq![
        "Timestamp"@,
        "AP MAC"@,
        "Client MAC"@,
        "SSID"@,
        "M1"@,
        "M2"@,
        "M3"@,
        "M4"@,
        "MC"@,
        "PM"@,
        "RD"@,
    ]
}

/// A row with the line of labels that opens the detail of a record.
pub open spec fn header_row(row: Seq<Seq<char>>) -> Seq<Seq<char>> {
    seq![
        row[0] + "\n \u{2514} Relative"@,
        row[1] + "\n \u{2514} MIC"@,
        row[2] + "\n \u{2514} ReplayCounter"@,
        row[3] + "\n \u{2514} NOnce Trail"@,
        row[4] + "\n"@,
        row[5] + "\n"@,
        row[6] + "\n"@,
        row[7] + "\n"@,
        row[8] + "\n"@,
        row[9] + "\n"@,
        row[10] + "\n"@,
    ]
}

/// The mark of a detail line for something that holds, and the one for
/// something that does not.
pub open spec fn tick(holds: bool) -> Seq<char> {
    if holds {
        "\u{2714}"@
    } else {
        "--"@
    }
}

/// What opens a cell of a detail line: a line feed, two spaces and the branch
/// sign, which is a corner on the last line.
pub open spec fn branch(last: bool) -> Seq<char> {
    if last {
        "\n  \u{2514} "@
    } else {
        "\n  \u{251c} "@
    }
}

/// The time from `start` to `stamp` in milliseconds, rounded to the nearest;
/// 0 where `stamp` is the earlier.
pub open spec fn relative_ms(stamp: u128, start: u128) -> nat {
    if stamp <= start {
        0
    } else {
        ((stamp - start + 500_000) / 1_000_000) as nat
    }
}

/// A row with the detail line of one message under it.
pub open spec fn message_row(row: Seq<Seq<char>>, key: EapolKeyView, last: bool, start: u128)
    -> Seq<Seq<char>> {
    seq![
        row[0] + branch(last) + decimal_string(relative_ms(key.timestamp, start)) + "ms"@,
        row[1] + branch(last) + hex_string(key.key_mic@),
        row[2] + branch(last) + decimal_string(key.replay_counter as nat),
        row[3] + branch(last) + "["@ + hex_string(key.key_nonce@.subrange(30, 32)) + "]"@,
        row[4] + "\n"@ + tick(key.message_type() == MessageType::Message1),
        row[5] + "\n"@ + tick(key.message_type() == MessageType::Message2),
        row[6] + "\n"@ + tick(key.message_type() == MessageType::Message3),
        row[7] + "\n"@ + tick(key.message_type() == MessageType::Message4),
        row[8] + "\n"@ + tick(!all_zero(key.key_mic@)),
        row[9] + "\n"@ + tick(key.pmkid() is Some),
        row[10],
    ]
}

/// The row of a record before any detail: the clock text of its latest
/// message, the two addresses, the network name and the seven marks.
pub open spec fn base_row(h: HandshakeView, clock: Seq<char>) -> Seq<Seq<char>> {
    seq![
        clock,
        mac_text(h.mac_ap->0),
        mac_text(h.mac_client->0),
        match h.essid {
            Some(essid) => essid,
            None => Seq::empty(),
        },
        mark(h.msg1 is Some),
        mark(h.msg2 is Some),
        mark(h.msg3 is Some),
        mark(h.msg4 is Some),
        mark(h.mic is Some),
        mark(h.pmkid is Some),
        mark(h.complete()),
    ]
}

/// The times of capture of a list of numbered frames.
pub open spec fn key_stamps(keys: Seq<(u8, EapolKeyView)>) -> Seq<u128> {
    Seq::new(keys.len(), |i: int| keys[i].1.timestamp)
}

/// The collected messages of a record in the order of the detail lines:
/// earliest first, and of two as early the one with the higher number.
pub open spec fn detail_keys(h: HandshakeView) -> Seq<EapolKeyView> {
    let keys = eapol_keys(h);
    let order = display_order(key_stamps(keys));
    Seq::new(keys.len(), |i: int| keys[order[keys.len() - 1 - i]].1)
}

/// A row with the detail lines of the first `upto` of `keys` under it.
pub open spec fn detail_rows(row: Seq<Seq<char>>, keys: Seq<EapolKeyView>, upto: int) -> Seq<
    Seq<char>,
>
    decreases upto,
{
    if upto <= 0 {
        row
    } else {
        message_row(detail_rows(row, keys, upto - 1), keys[upto - 1], upto == keys.len(), keys[0].timestamp)
    }
}

/// The table row of a record and its height in lines.  A row that is selected
/// and has messages to show carries the line of labels and one line for each
/// message; every other row is one line high.
pub open spec fn table_row(h: HandshakeView, clock: Seq<char>, selected: bool) -> (
    Seq<Seq<char>>,
    u16,
) {
    let keys = detail_keys(h);
    if selected && keys.len() > 0 {
        (detail_rows(header_row(base_row(h, clock)), keys, keys.len() as int), (2 + keys.len()) as u16)
    } else {
        (base_row(h, clock), 1u16)
    }
}

/// `cell` with `suffix` behind it.
fn extended(cell: &String, suffix: &str) -> (text: String)
    ensures
        text@ == cell@ + suffix@,
{
    let mut text = cell.clone();
    text.append(suffix);
    text
}

/// The headings of the table.
pub fn table_headers() -> (headers: Vec<String>)
    ensures
        strings_view(headers@) == headings(),
{
    let mut headers: Vec<String> = Vec::new();
    headers.push(String::from_str("Timestamp"));
    headers.push(String::from_str("AP MAC"));
    headers.push(String::from_str("Client MAC"));
    headers.push(String::from_str("SSID"));
    headers.push(String::from_str("M1"));
    headers.push(String::from_str("M2"));
    headers.push(String::from_str("M3"));
    headers.push(String::from_str("M4"));
    headers.push(String::from_str("MC"));
    headers.push(String::from_str("PM"));
    headers.push(String::from_str("RD"));
    assert(strings_view(headers@) =~= headings());
    headers
}

/// Puts the line of labels under a row.
pub fn add_handshake_header_row(hs_row: Vec<String>) -> (merged: Vec<String>)
    requires
        hs_row@.len() >= COLUMNS,
    ensures
        strings_view(merged@) == header_row(strings_view(hs_row@)),
        merged@.len() == COLUMNS,
{
    let mut merged: Vec<String> = Vec::with_capacity(hs_row.len());
    merged.push(extended(&hs_row[0], "\n \u{2514} Relative"));
    merged.push(extended(&hs_row[1], "\n \u{2514} MIC"));
    merged.push(extended(&hs_row[2], "\n \u{2514} ReplayCounter"));
    merged.push(extended(&hs_row[3], "\n \u{2514} NOnce Trail"));
    merged.push(extended(&hs_row[4], "\n"));
    merged.push(extended(&hs_row[5], "\n"));
    merged.push(extended(&hs_row[6], "\n"));
    merged.push(extended(&hs_row[7], "\n"));
    merged.push(extended(&hs_row[8], "\n"));
    merged.push(extended(&hs_row[9], "\n"));
    merged.push(extended(&hs_row[10], "\n"));
    assert(strings_view(merged@) =~= header_row(strings_view(hs_row@)));
    merged
}

/// The time from `start` to `stamp` in milliseconds, rounded to the nearest.
pub fn relative_millis(stamp: u128, start: u128) -> (ms: u128)
    ensures
        ms == relative_ms(stamp, start),
{
    if stamp <= start {
        0
    } else {
        let gap: u128 = stamp - start;
        if gap % 1_000_000 >= 500_000 {
            gap / 1_000_000 + 1
        } else {
            gap / 1_000_000
        }
    }
}

/// The branch sign that opens a cell of a detail line.
fn branch_str(last: bool) -> (text: &'static str)
    ensures
        text@ == branch(last),
{
    if last {
        "\n  \u{2514} "
    } else {
        "\n  \u{251c} "
    }
}

/// `cell` with a line feed and the mark for `holds` under it.
fn ticked(cell: &String, holds: bool) -> (text: String)
    ensures
        text@ == cell@ + "\n"@ + tick(holds),
{
    let mut text = cell.clone();
    text.append("\n");
    if holds {
        text.append("\u{2714}");
    } else {
        text.append("--");
    }
    text
}

/// Puts the detail line of `message` under a row.  `last` tells the last line
/// of a record, `start_time` the time of its earliest message.
pub fn add_handshake_message_row(
    hs_row: Vec<String>,
    message: &EapolKey,
    last: bool,
    start_time: u128,
) -> (merged: Vec<String>)
    requires
        hs_row@.len() >= COLUMNS,
    ensures
        strings_view(merged@) == message_row(strings_view(hs_row@), message@, last, start_time),
        merged@.len() == COLUMNS,
{
    let mut merged: Vec<String> = Vec::with_capacity(hs_row.len());
    let kind = message.determine_key_type();

    let mut relative = extended(&hs_row[0], branch_str(last));
    push_decimal(&mut relative, relative_millis(message.timestamp, start_time));
    relative.append("ms");
    merged.push(relative);

    let mut mic = extended(&hs_row[1], branch_str(last));
    push_hex(&mut mic, &message.key_mic);
    merged.push(mic);

    let mut counter = extended(&hs_row[2], branch_str(last));
    push_decimal(&mut counter, message.replay_counter as u128);
    merged.push(counter);

    let mut trail = extended(&hs_row[3], branch_str(last));
    trail.append("[");
    let mut tail: Vec<u8> = Vec::new();
    tail.push(message.key_nonce[30]);
    tail.push(message.key_nonce[31]);
    assert(tail@ =~= message.key_nonce@.subrange(30, 32));
    push_hex(&mut trail, tail.as_slice());
    trail.append("]");
    merged.push(trail);

    merged.push(ticked(&hs_row[4], kind == MessageType::Message1));
    merged.push(ticked(&hs_row[5], kind == MessageType::Message2));
    merged.push(ticked(&hs_row[6], kind == MessageType::Message3));
    merged.push(ticked(&hs_row[7], kind == MessageType::Message4));
    merged.push(ticked(&hs_row[8], !is_zero(&message.key_mic)));
    merged.push(ticked(&hs_row[9], message.has_pmkid().is_some()));
    merged.push(hs_row[10].clone());
    assert(strings_view(merged@) =~= message_row(
        strings_view(hs_row@),
        message@,
        last,
        start_time,
    ));
    merged
}

/// The table row of `h` and its height.  `clock` is the text for the time of
/// the record's latest message; `selected` tells whether the row shows its
/// messages.
pub fn build_row(h: &FourWayHandshake, clock: &str, selected: bool) -> (row: (Vec<String>, u16))
    requires
        h@.mac_ap is Some,
        h@.mac_client is Some,
    ensures
        strings_view(row.0@) == table_row(h@, clock@, selected).0,
        row.1 == table_row(h@, clock@, selected).1,
{
    let (m1, m2, m3, m4, mc, pm, rd) = h.data_to_string();
    let mut cells: Vec<String> = Vec::new();
    cells.push(String::from_str(clock));
    match (&h.mac_ap, &h.mac_client) {
        (Some(ap), Some(client)) => {
            cells.push(ap.to_string());
            cells.push(client.to_string());
        },
        _ => {},
    }
    cells.push(h.essid_to_string());
    cells.push(m1);
    cells.push(m2);
    cells.push(m3);
    cells.push(m4);
    cells.push(mc);
    cells.push(pm);
    cells.push(rd);
    assert(strings_view(cells@) =~= base_row(h@, clock@));
    let keys = h.get_eapol_keys();
    let count = keys.len();
    assert(count == eapol_keys(h@).len() && count <= 4) by {
        assert(numbered_views(keys@).len() == keys@.len());
    }
    assert(detail_keys(h@).len() == count);
    if !selected || count == 0 {
        return (cells, 1);
    }
    let mut stamps: Vec<u128> = Vec::new();
    let mut k: usize = 0;
    while k < count
        invariant
            k <= count,
            count == keys@.len(),
            stamps@.len() == k,
            forall|j: int| 0 <= j < k ==> stamps@[j] == (#[trigger] keys@[j]).1.timestamp,
        decreases count - k,
    {
        stamps.push(keys[k].1.timestamp);
        k = k + 1;
    }
    proof {
        assert forall|j: int| 0 <= j < count implies stamps@[j] == key_stamps(eapol_keys(h@))[j] by {
            assert(numbered_views(keys@)[j] == (keys@[j].0, keys@[j].1@));
        }
        assert(stamps@ =~= key_stamps(eapol_keys(h@)));
    }
    let order = order_by_time(&stamps);
    let ghost lines = detail_keys(h@);
    let start_time = keys[order[count - 1]].1.timestamp;
    proof {
        assert(order@.map_values(|i: usize| i as int)[count - 1] == order@[count - 1] as int);
        assert(numbered_views(keys@)[order@[count - 1] as int].1 == keys@[order@[count
            - 1] as int].1@);
        assert(lines[0].timestamp == start_time);
    }
    cells = add_handshake_header_row(cells);
    let mut height: u16 = 2;
    let mut i: usize = 0;
    while i < count
        invariant
            i <= count,
            0 < count <= 4,
            count == keys@.len(),
            count == order@.len(),
            count == lines.len(),
            lines == detail_keys(h@),
            numbered_views(keys@) == eapol_keys(h@),
            order@.map_values(|i: usize| i as int) == display_order(key_stamps(eapol_keys(h@))),
            forall|j: int| 0 <= j < order@.len() ==> #[trigger] order@[j] < count,
            start_time == lines[0].timestamp,
            height == 2 + i,
            cells@.len() == COLUMNS,
            strings_view(cells@) == detail_rows(
                header_row(base_row(h@, clock@)),
                lines,
                i as int,
            ),
        decreases count - i,
    {
        let at = order[count - 1 - i];
        proof {
            assert(order@.map_values(|i: usize| i as int)[count - 1 - i] == at as int);
            assert(numbered_views(keys@)[at as int].1 == keys@[at as int].1@);
            assert(lines[i as int] == keys@[at as int].1@);
        }
        cells = add_handshake_message_row(cells, &keys[at].1, i == count - 1, start_time);
        height = height + 1;
        i = i + 1;
    }
    (cells, height)
}

} // verus!
