//! The store of handshakes: for each pair of access point and client, the
//! records of that pair in the order in which they were opened.

use vstd::prelude::*;
use vstd::string::*;
use crate::eapol::{EapolKey, EapolKeyView};
use crate::handshake::{add_key_spec, FourWayHandshake, HandshakeError, HandshakeView};
use crate::laws::lemma_add_key_keeps_wf;
use crate::mac::MacAddress;
use crate::order::{display_order, order_by_time};
use crate::table::{build_row, headings, strings_view, table_headers, table_row};

verus! {

/// The two ends of a handshake.
#[derive(Clone, Copy, Debug, PartialEq, Eq, Hash)]
pub struct HandshakeSessionKey {
    pub ap_mac: MacAddress,
    pub client_mac: MacAddress,
}

impl HandshakeSessionKey {
    /// The key of the pair `ap_mac`, `client_mac`.
    pub fn new(ap_mac: MacAddress, client_mac: MacAddress) -> (key: Self)
        ensures
            key == (HandshakeSessionKey { ap_mac, client_mac }),
    {
        HandshakeSessionKey { ap_mac, client_mac }
    }

    /// Whether two keys name the same pair.
    pub fn same(&self, other: &HandshakeSessionKey) -> (equal: bool)
        ensures
            equal == (*self == *other),
    {
        self.ap_mac.same(&other.ap_mac) && self.client_mac.same(&other.client_mac)
    }
}

/// The mathematical value of a store: its buckets in the order in which they
/// were opened, each with its key and its records.
pub type StoreState = Seq<(HandshakeSessionKey, Seq<HandshakeView>)>;

/// The first index from `from` on at which a bucket has the key `key`, or the
/// number of buckets if there is none.
pub open spec fn bucket_position(s: StoreState, key: HandshakeSessionKey, from: int) -> int
    decreases s.len() - from,
{
    if from < 0 || from >= s.len() {
        s.len() as int
    } else if s[from].0 == key {
        from
    } else {
        bucket_position(s, key, from + 1)
    }
}

/// The first index from `from` on at which a record accepts `key`, or the
/// number of records if none does.
pub open spec fn first_accepting(records: Seq<HandshakeView>, key: EapolKeyView, from: int) -> int
    decreases records.len() - from,
{
    if from < 0 || from >= records.len() {
        records.len() as int
    } else if add_key_spec(records[from], key) is Ok {
        from
    } else {
        first_accepting(records, key, from + 1)
    }
}

/// A record with the two addresses and the network name under which it was
/// last seen.
pub open spec fn stamp(
    h: HandshakeView,
    ap_mac: MacAddress,
    client_mac: MacAddress,
    essid: Option<Seq<char>>,
) -> HandshakeView {
    HandshakeView { mac_ap: Some(ap_mac), mac_client: Some(client_mac), essid, ..h }
}

/// What a frame does to the records of its pair.  The first record that
/// accepts the frame takes it; if none does, a fresh record is tried and, if it
/// accepts, joins the list at its end.  The record that took the frame is
/// stamped and returned.
pub open spec fn ingest_records(
    records: Seq<HandshakeView>,
    ap_mac: MacAddress,
    client_mac: MacAddress,
    key: EapolKeyView,
    essid: Option<Seq<char>>,
) -> (Seq<HandshakeView>, Result<HandshakeView, HandshakeError>) {
    let i = first_accepting(records, key, 0);
    if i < records.len() {
        let taken = stamp(add_key_spec(records[i], key)->Ok_0, ap_mac, client_mac, essid);
        (records.update(i, taken), Ok(taken))
    } else {
        match add_key_spec(HandshakeView::empty(), key) {
            Ok(h) => {
                let fresh = stamp(h, ap_mac, client_mac, essid);
                (records.push(fresh), Ok(fresh))
            },
            Err(e) => (records, Err(e)),
        }
    }
}

/// The store with a bucket for `pair`: the store itself if it has one, else
/// the store with an empty bucket at its end.
pub open spec fn ingest_opened(s: StoreState, pair: HandshakeSessionKey) -> StoreState {
    if bucket_position(s, pair, 0) < s.len() {
        s
    } else {
        s.push((pair, Seq::empty()))
    }
}

/// The value of an optional text.
pub open spec fn text_view(text: Option<String>) -> Option<Seq<char>> {
    match text {
        Some(t) => Some(t@),
        None => None,
    }
}

/// The value of what an intake returns.
pub open spec fn outcome_view(res: Result<FourWayHandshake, HandshakeError>) -> Result<
    HandshakeView,
    HandshakeError,
> {
    match res {
        Ok(h) => Ok(h@),
        Err(e) => Err(e),
    }
}

/// What a frame does to a store: the bucket of its pair is opened if there is
/// none, and takes the frame as [`ingest_records`] says.
pub open spec fn ingest_spec(
    s: StoreState,
    ap_mac: MacAddress,
    client_mac: MacAddress,
    key: EapolKeyView,
    essid: Option<Seq<char>>,
) -> (StoreState, Result<HandshakeView, HandshakeError>) {
    let pair = HandshakeSessionKey { ap_mac, client_mac };
    let opened = ingest_opened(s, pair);
    let b = bucket_position(s, pair, 0);
    let (records, outcome) = ingest_records(opened[b].1, ap_mac, client_mac, key, essid);
    (opened.update(b, (pair, records)), outcome)
}

/// The number of records in all buckets.
pub open spec fn total_records(s: StoreState) -> nat
    decreases s.len(),
{
    if s.len() == 0 {
        0
    } else {
        total_records(s.drop_last()) + s.last().1.len()
    }
}

/// The buckets of one access point, each under the address of its client.
pub open spec fn buckets_of_ap(s: StoreState, ap_mac: MacAddress) -> Seq<
    (MacAddress, Seq<HandshakeView>),
>
    decreases s.len(),
{
    if s.len() == 0 {
        Seq::empty()
    } else if s.last().0.ap_mac == ap_mac {
        buckets_of_ap(s.drop_last(), ap_mac).push((s.last().0.client_mac, s.last().1))
    } else {
        buckets_of_ap(s.drop_last(), ap_mac)
    }
}

/// Whether some record of the access point is complete.
pub open spec fn has_complete_for(s: StoreState, ap_mac: MacAddress) -> bool {
    exists|b: int, i: int|
        0 <= b < s.len() && 0 <= i < s[b].1.len() && s[b].0.ap_mac == ap_mac
            && #[trigger] s[b].1[i].complete()
}

/// Whether some record of the access point holds a first message.
pub open spec fn has_m1_for(s: StoreState, ap_mac: MacAddress) -> bool {
    exists|b: int, i: int|
        0 <= b < s.len() && 0 <= i < s[b].1.len() && s[b].0.ap_mac == ap_mac
            && (#[trigger] s[b].1[i]).msg1 is Some
}

/// Whether a record is one that the bucket of `pair` may hold: well formed,
/// with a latest message, and stamped with the two addresses of the pair.
pub open spec fn stored_under(h: HandshakeView, pair: HandshakeSessionKey) -> bool {
    h.wf() && h.last_msg is Some && h.mac_ap == Some(pair.ap_mac) && h.mac_client == Some(
        pair.client_mac,
    )
}

/// What holds of every store that intake has built: no two buckets have the
/// same key, and every record is one that its bucket may hold.
pub open spec fn store_wf(s: StoreState) -> bool {
    &&& forall|b: int, c: int| 0 <= b < c < s.len() ==> (#[trigger] s[b]).0 != (#[trigger] s[c]).0
    &&& forall|b: int, i: int|
        0 <= b < s.len() && 0 <= i < s[b].1.len() ==> stored_under(#[trigger] s[b].1[i], s[b].0)
}

/// All records of a store, bucket after bucket.
pub open spec fn flat_records(s: StoreState) -> Seq<HandshakeView>
    decreases s.len(),
{
    if s.len() == 0 {
        Seq::empty()
    } else {
        flat_records(s.drop_last()) + s.last().1
    }
}

/// The time of the latest message of each record; 0 stands for a record
/// without one.
pub open spec fn last_stamps(records: Seq<HandshakeView>) -> Seq<u128> {
    Seq::new(
        records.len(),
        |i: int|
            match records[i].last_msg {
                Some(k) => k.timestamp,
                None => 0u128,
            },
    )
}

/// The records of a store in the order of the table: the one with the latest
/// message first, and of two as late the one that stands first in the store.
pub open spec fn table_records(s: StoreState) -> Seq<HandshakeView> {
    let flat = flat_records(s);
    let order = display_order(last_stamps(flat));
    Seq::new(flat.len(), |i: int| flat[order[i]])
}

/// The rows of the table.  `clock` holds the clock text of each row, and
/// `selected` names the row that shows its messages.
pub open spec fn table_rows(s: StoreState, clock: Seq<Seq<char>>, selected: Option<usize>) -> Seq<
    (Seq<Seq<char>>, u16),
> {
    let records = table_records(s);
    Seq::new(
        records.len(),
        |i: int| table_row(records[i], clock[i], selected == Some(i as usize)),
    )
}

/// Whether `clock` may be the first column of the table of `s`: every text
/// is a time of day or the row of dashes, and it is the row of dashes for a
/// record whose latest message lies beyond the range of the calendar's
/// counter of seconds.
pub open spec fn table_clock(s: StoreState, clock: Seq<Seq<char>>) -> bool {
    forall|i: int|
        0 <= i < clock.len() ==> is_clock_text(#[trigger] clock[i]) && (whole_seconds(
            last_stamps(table_records(s))[i],
        ) > i64::MAX ==> clock[i] == no_time_of_day())
}

/// The values of a list of rows.
pub open spec fn rows_view(rows: Seq<(Vec<String>, u16)>) -> Seq<(Seq<Seq<char>>, u16)> {
    Seq::new(rows.len(), |i: int| (strings_view(rows[i].0@), rows[i].1))
}

/// The values of a list of records.
pub open spec fn records_view(records: Seq<FourWayHandshake>) -> Seq<HandshakeView> {
    Seq::new(records.len(), |i: int| records[i]@)
}

/// The value of a list of buckets.
pub open spec fn buckets_view(buckets: Seq<(HandshakeSessionKey, Vec<FourWayHandshake>)>)
    -> StoreState {
    Seq::new(buckets.len(), |b: int| (buckets[b].0, records_view(buckets[b].1@)))
}

/// The value of a list of buckets that are named by the client alone.
pub open spec fn client_buckets_view(buckets: Seq<(MacAddress, Vec<FourWayHandshake>)>) -> Seq<
    (MacAddress, Seq<HandshakeView>),
> {
    Seq::new(buckets.len(), |b: int| (buckets[b].0, records_view(buckets[b].1@)))
}

/// The handshakes collected so far.
#[derive(Debug)]
pub struct HandshakeStorage {
    handshakes: Vec<(HandshakeSessionKey, Vec<FourWayHandshake>)>,
}

impl View for HandshakeStorage {
    type V = StoreState;

    closed spec fn view(&self) -> StoreState {
        buckets_view(self.handshakes@)
    }
}

impl Clone for HandshakeStorage {
    fn clone(&self) -> (copy: Self)
        ensures
            copy@ == self@,
    {
        HandshakeStorage { handshakes: self.get_handshakes() }
    }
}

/// A copy of a list of records.
fn clone_records(records: &Vec<FourWayHandshake>) -> (copy: Vec<FourWayHandshake>)
    ensures
        records_view(copy@) == records_view(records@),
{
    let mut copy: Vec<FourWayHandshake> = Vec::new();
    let mut i: usize = 0;
    while i < records.len()
        invariant
            i <= records.len(),
            copy@.len() == i,
            forall|j: int| 0 <= j < i ==> copy@[j]@ == records@[j]@,
        decreases records.len() - i,
    {
        copy.push(records[i].clone());
        i = i + 1;
    }
    assert(records_view(copy@) =~= records_view(records@));
    copy
}

impl HandshakeStorage {
    /// A store without buckets.
    pub fn new() -> (store: Self)
        ensures
            store@ == StoreState::empty(),
            store.wf(),
    {
        let store = HandshakeStorage { handshakes: Vec::new() };
        assert(store@ =~= StoreState::empty());
        store
    }

    /// The number of records in all buckets.
    pub fn count(&self) -> (n: usize)
        requires
            total_records(self@) <= usize::MAX,
        ensures
            n == total_records(self@),
    {
        let mut n: usize = 0;
        let mut b: usize = 0;
        while b < self.handshakes.len()
            invariant
                b <= self.handshakes.len(),
                n == total_records(self@.take(b as int)),
                total_records(self@) <= usize::MAX,
            decreases self.handshakes.len() - b,
        {
            proof {
                assert(self@.take(b as int + 1).drop_last() =~= self@.take(b as int));
                lemma_total_records_grows(self@, b as int + 1);
            }
            n = n + self.handshakes[b].1.len();
            b = b + 1;
        }
        assert(self@.take(b as int) =~= self@);
        n
    }

    /// A copy of all buckets, in the order in which they were opened.
    pub fn get_handshakes(&self) -> (buckets: Vec<(HandshakeSessionKey, Vec<FourWayHandshake>)>)
        ensures
            buckets_view(buckets@) == self@,
    {
        let mut buckets: Vec<(HandshakeSessionKey, Vec<FourWayHandshake>)> = Vec::new();
        let mut b: usize = 0;
        while b < self.handshakes.len()
            invariant
                b <= self.handshakes.len(),
                buckets@.len() == b,
                forall|j: int|
                    0 <= j < b ==> buckets@[j].0 == self.handshakes@[j].0 && records_view(
                        buckets@[j].1@,
                    ) == records_view(self.handshakes@[j].1@),
            decreases self.handshakes.len() - b,
        {
            buckets.push((self.handshakes[b].0, clone_records(&self.handshakes[b].1)));
            b = b + 1;
        }
        assert(buckets_view(buckets@) =~= self@);
        buckets
    }

    /// The buckets of the access point `ap_mac`, each under the address of its
    /// client.
    pub fn find_handshakes_by_ap(&self, ap_mac: &MacAddress) -> (found: Vec<
        (MacAddress, Vec<FourWayHandshake>),
    >)
        ensures
            client_buckets_view(found@) == buckets_of_ap(self@, *ap_mac),
    {
        let mut found: Vec<(MacAddress, Vec<FourWayHandshake>)> = Vec::new();
        let mut b: usize = 0;
        while b < self.handshakes.len()
            invariant
                b <= self.handshakes.len(),
                client_buckets_view(found@) == buckets_of_ap(self@.take(b as int), *ap_mac),
            decreases self.handshakes.len() - b,
        {
            proof {
                assert(self@.take(b as int + 1).drop_last() =~= self@.take(b as int));
            }
            if self.handshakes[b].0.ap_mac.same(ap_mac) {
                found.push((self.handshakes[b].0.client_mac, clone_records(&self.handshakes[b].1)));
            }
            assert(client_buckets_view(found@) =~= buckets_of_ap(
                self@.take(b as int + 1),
                *ap_mac,
            ));
            b = b + 1;
        }
        assert(self@.take(b as int) =~= self@);
        found
    }

    /// Whether some record of the access point `ap_mac` is complete.
    pub fn has_complete_handshake_for_ap(&self, ap_mac: &MacAddress) -> (found: bool)
        ensures
            found == has_complete_for(self@, *ap_mac),
    {
        let mut b: usize = 0;
        while b < self.handshakes.len()
            invariant
                b <= self.handshakes.len(),
                forall|c: int, i: int|
                    0 <= c < b && 0 <= i < self@[c].1.len() && self@[c].0.ap_mac == *ap_mac
                        ==> !(#[trigger] self@[c].1[i].complete()),
            decreases self.handshakes.len() - b,
        {
            if self.handshakes[b].0.ap_mac.same(ap_mac) {
                let records = &self.handshakes[b].1;
                let mut i: usize = 0;
                while i < records.len()
                    invariant
                        i <= records.len(),
                        b < self.handshakes.len(),
                        records == &self.handshakes@[b as int].1,
                        self@[b as int].0.ap_mac == *ap_mac,
                        forall|j: int| 0 <= j < i ==> !(#[trigger] self@[b as int].1[j].complete()),
                    decreases records.len() - i,
                {
                    if records[i].complete() {
                        assert(self@[b as int].1[i as int].complete());
                        return true;
                    }
                    i = i + 1;
                }
            }
            b = b + 1;
        }
        false
    }

    /// Whether some record of the access point `ap_mac` holds a first message.
    pub fn has_m1_for_ap(&self, ap_mac: &MacAddress) -> (found: bool)
        ensures
            found == has_m1_for(self@, *ap_mac),
    {
        let mut b: usize = 0;
        while b < self.handshakes.len()
            invariant
                b <= self.handshakes.len(),
                forall|c: int, i: int|
                    0 <= c < b && 0 <= i < self@[c].1.len() && self@[c].0.ap_mac == *ap_mac ==> (
                    #[trigger] self@[c].1[i]).msg1 is None,
            decreases self.handshakes.len() - b,
        {
            if self.handshakes[b].0.ap_mac.same(ap_mac) {
                let records = &self.handshakes[b].1;
                let mut i: usize = 0;
                while i < records.len()
                    invariant
                        i <= records.len(),
                        b < self.handshakes.len(),
                        records == &self.handshakes@[b as int].1,
                        self@[b as int].0.ap_mac == *ap_mac,
                        forall|j: int| 0 <= j < i ==> (#[trigger] self@[b as int].1[j]).msg1 is None,
                    decreases records.len() - i,
                {
                    if records[i].has_m1() {
                        assert(self@[b as int].1[i as int].msg1 is Some);
                        return true;
                    }
                    i = i + 1;
                }
            }
            b = b + 1;
        }
        false
    }
}

impl HandshakeStorage {
    /// The index of the bucket of `pair`, or the number of buckets if it has
    /// none.
    fn position_of(&self, pair: &HandshakeSessionKey) -> (b: usize)
        ensures
            b == bucket_position(self@, *pair, 0),
            b <= self.handshakes@.len(),
    {
        let mut b: usize = 0;
        while b < self.handshakes.len()
            invariant
                b <= self.handshakes.len(),
                bucket_position(self@, *pair, 0) == bucket_position(self@, *pair, b as int),
            decreases self.handshakes.len() - b,
        {
            if self.handshakes[b].0.same(pair) {
                return b;
            }
            b = b + 1;
        }
        b
    }

    /// Routes `new_key` to a record of the pair `ap_mac`, `client_mac`: to the
    /// first that accepts it, or to a fresh one.  Returns a copy of the record
    /// that took the frame, or the reason for which a fresh record refuses it.
    pub fn add_or_update_handshake(
        &mut self,
        ap_mac: &MacAddress,
        client_mac: &MacAddress,
        new_key: EapolKey,
        essid: Option<String>,
    ) -> (res: Result<FourWayHandshake, HandshakeError>)
        ensures
            final(self)@ == ingest_spec(
                old(self)@,
                *ap_mac,
                *client_mac,
                new_key@,
                text_view(essid),
            ).0,
            outcome_view(res) == ingest_spec(
                old(self)@,
                *ap_mac,
                *client_mac,
                new_key@,
                text_view(essid),
            ).1,
            old(self).wf() ==> final(self).wf(),
    {
        proof {
            if self.wf() {
                lemma_ingest_keeps_wf(self@, *ap_mac, *client_mac, new_key@, text_view(essid));
            }
        }
        let pair = HandshakeSessionKey::new(*ap_mac, *client_mac);
        let b = self.position_of(&pair);
        if b == self.handshakes.len() {
            self.handshakes.push((pair, Vec::new()));
            proof {
                assert(records_view(self.handshakes@[b as int].1@) =~= Seq::empty());
                assert(self@ =~= old(self)@.push((pair, Seq::empty())));
            }
        }
        let ghost opened = self@;
        let ghost records = opened[b as int].1;
        proof {
            lemma_bucket_position(old(self)@, pair, 0);
            assert(opened =~= ingest_opened(old(self)@, pair));
        }
        let mut i: usize = 0;
        while i < self.handshakes[b].1.len()
            invariant
                old(self).wf() ==> store_wf(
                    ingest_spec(old(self)@, *ap_mac, *client_mac, new_key@, text_view(essid)).0,
                ),
                b < self.handshakes.len(),
                b == bucket_position(old(self)@, pair, 0),
                pair == (HandshakeSessionKey { ap_mac: *ap_mac, client_mac: *client_mac }),
                opened == ingest_opened(old(self)@, pair),
                opened[b as int].0 == pair,
                self@ == opened,
                records == opened[b as int].1,
                i <= self.handshakes@[b as int].1.len(),
                first_accepting(records, new_key@, 0) == first_accepting(records, new_key@, i as int),
            decreases self.handshakes@[b as int].1.len() - i,
        {
            if self.handshakes[b].1[i].add_key(&new_key).is_ok() {
                self.handshakes[b].1[i].mac_ap = Some(*ap_mac);
                self.handshakes[b].1[i].mac_client = Some(*client_mac);
                self.handshakes[b].1[i].essid = essid;
                let taken = self.handshakes[b].1[i].clone();
                proof {
                    lemma_first_accepting(records, new_key@, i as int);
                    assert(self@[b as int].1 =~= records.update(i as int, taken@));
                    assert(self@ =~= opened.update(
                        b as int,
                        (pair, records.update(i as int, taken@)),
                    ));
                }
                return Ok(taken);
            }
            assert(self@[b as int].1 =~= records);
            assert(self@ =~= opened);
            i = i + 1;
        }
        proof {
            lemma_first_accepting(records, new_key@, i as int);
        }
        let mut fresh = FourWayHandshake::new();
        match fresh.add_key(&new_key) {
            Ok(()) => {
                fresh.mac_ap = Some(*ap_mac);
                fresh.mac_client = Some(*client_mac);
                fresh.essid = essid;
                let taken = fresh.clone();
                self.handshakes[b].1.push(fresh);
                proof {
                    assert(self@[b as int].1 =~= records.push(taken@));
                    assert(self@ =~= opened.update(b as int, (pair, records.push(taken@))));
                }
                Ok(taken)
            },
            Err(e) => {
                assert(self@ =~= opened.update(b as int, (pair, records)));
                Err(e)
            },
        }
    }
}

/// Where [`bucket_position`] points: at a bucket with the key, behind all
/// buckets from `from` on that have another.
pub proof fn lemma_bucket_position(s: StoreState, key: HandshakeSessionKey, from: int)
    requires
        0 <= from <= s.len(),
    ensures
        from <= bucket_position(s, key, from) <= s.len(),
        bucket_position(s, key, from) < s.len() ==> s[bucket_position(s, key, from)].0 == key,
        forall|j: int| from <= j < bucket_position(s, key, from) ==> (#[trigger] s[j]).0 != key,
    decreases s.len() - from,
{
    if from < s.len() && s[from].0 != key {
        lemma_bucket_position(s, key, from + 1);
    }
}

/// Where [`first_accepting`] points: at a record that accepts the frame,
/// behind all records from `from` on that refuse it.
pub proof fn lemma_first_accepting(records: Seq<HandshakeView>, key: EapolKeyView, from: int)
    requires
        0 <= from <= records.len(),
    ensures
        from <= first_accepting(records, key, from) <= records.len(),
        first_accepting(records, key, from) < records.len() ==> add_key_spec(
            records[first_accepting(records, key, from)],
            key,
        ) is Ok,
        forall|j: int|
            from <= j < first_accepting(records, key, from) ==> add_key_spec(
                #[trigger] records[j],
                key,
            ) is Err,
    decreases records.len() - from,
{
    if from < records.len() && add_key_spec(records[from], key) is Err {
        lemma_first_accepting(records, key, from + 1);
    }
}

impl HandshakeStorage {
    /// Whether the store is one that intake has built.
    pub open spec fn wf(&self) -> bool {
        store_wf(self@)
    }

    /// A copy of all records, bucket after bucket.
    fn flatten(&self) -> (flat: Vec<FourWayHandshake>)
        ensures
            records_view(flat@) == flat_records(self@),
    {
        let mut flat: Vec<FourWayHandshake> = Vec::new();
        let mut b: usize = 0;
        while b < self.handshakes.len()
            invariant
                b <= self.handshakes.len(),
                records_view(flat@) == flat_records(self@.take(b as int)),
            decreases self.handshakes.len() - b,
        {
            let ghost before = records_view(flat@);
            let records = &self.handshakes[b].1;
            let mut i: usize = 0;
            while i < records.len()
                invariant
                    i <= records.len(),
                    records_view(flat@) == before + records_view(records@).take(i as int),
                decreases records.len() - i,
            {
                let ghost so_far = records_view(flat@);
                flat.push(records[i].clone());
                proof {
                    let rest = records_view(records@);
                    assert(rest.take(i as int + 1) =~= rest.take(i as int).push(records@[i as int]@));
                    assert(records_view(flat@) =~= so_far.push(records@[i as int]@));
                    assert(records_view(flat@) =~= before + rest.take(i as int + 1));
                }
                i = i + 1;
            }
            proof {
                assert(records_view(records@).take(i as int) =~= records_view(records@));
                assert(self@.take(b as int + 1).drop_last() =~= self@.take(b as int));
                assert(self@.take(b as int + 1).last().1 == records_view(records@));
            }
            b = b + 1;
        }
        assert(self@.take(b as int) =~= self@);
        flat
    }

    /// The time of the latest message of each record, in the order of the
    /// table.
    pub fn table_times(&self) -> (times: Vec<u128>)
        ensures
            times@ == last_stamps(table_records(self@)),
    {
        let flat = self.flatten();
        let stamps = stamps_of(&flat);
        let order = order_by_time(&stamps);
        let mut times: Vec<u128> = Vec::new();
        let mut i: usize = 0;
        while i < order.len()
            invariant
                i <= order@.len(),
                order@.len() == stamps@.len(),
                times@.len() == i,
                forall|j: int| 0 <= j < order@.len() ==> #[trigger] order@[j] < stamps@.len(),
                forall|j: int| 0 <= j < i ==> times@[j] == stamps@[order@[j] as int],
            decreases order@.len() - i,
        {
            times.push(stamps[order[i]]);
            i = i + 1;
        }
        proof {
            let shown = table_records(self@);
            let ranks = order@.map_values(|i: usize| i as int);
            assert forall|j: int| 0 <= j < times@.len() implies times@[j] == last_stamps(
                shown,
            )[j] by {
                assert(ranks[j] == order@[j] as int);
            }
            assert(times@ =~= last_stamps(shown));
        }
        times
    }

    /// The table of all records with the local time of day of each record's
    /// latest message in the first column: the headings, and for each record
    /// its row and the height of the row in lines.  The row `selected_row`
    /// shows its messages.  `sort` and `sort_reverse` are reserved: the rows
    /// always stand latest first.  But for the clock texts, which depend on
    /// the time zone of the machine, the table is that of
    /// [`HandshakeStorage::table_with_clock`].
    pub fn get_table(&mut self, selected_row: Option<usize>, sort: u8, sort_reverse: bool) -> (table:
        (Vec<String>, Vec<(Vec<String>, u16)>))
        requires
            old(self).wf(),
        ensures
            final(self)@ == old(self)@,
            strings_view(table.0@) == headings(),
            exists|clock: Seq<Seq<char>>|
                clock.len() == flat_records(old(self)@).len() && table_clock(old(self)@, clock)
                    && rows_view(table.1@) == table_rows(old(self)@, clock, selected_row),
    {
        let times = self.table_times();
        let mut clock: Vec<String> = Vec::new();
        let mut i: usize = 0;
        while i < times.len()
            invariant
                i <= times@.len(),
                clock@.len() == i,
                forall|j: int|
                    0 <= j < i ==> is_clock_text((#[trigger] clock@[j])@) && (whole_seconds(
                        times@[j],
                    ) > i64::MAX ==> clock@[j]@ == no_time_of_day()),
            decreases times@.len() - i,
        {
            clock.push(clock_text(times[i]));
            i = i + 1;
        }
        proof {
            let texts = strings_view(clock@);
            assert forall|j: int| 0 <= j < texts.len() implies is_clock_text(#[trigger] texts[j])
                && (whole_seconds(last_stamps(table_records(self@))[j]) > i64::MAX ==> texts[j]
                == no_time_of_day()) by {
                assert(texts[j] == clock@[j]@);
            }
            assert(table_clock(self@, texts));
        }
        self.table_with_clock(selected_row, &clock)
    }

    /// The table of all records: the headings, and for each record its row
    /// and the height of the row in lines.  `clock` holds the text of the
    /// first cell of each row, in the order of
    /// [`HandshakeStorage::table_times`]; the row `selected_row` shows its
    /// messages.
    pub fn table_with_clock(&self, selected_row: Option<usize>, clock: &Vec<String>) -> (table: (
        Vec<String>,
        Vec<(Vec<String>, u16)>,
    ))
        requires
            self.wf(),
            clock@.len() == flat_records(self@).len(),
        ensures
            strings_view(table.0@) == headings(),
            rows_view(table.1@) == table_rows(self@, strings_view(clock@), selected_row),
    {
        let headers = table_headers();
        let flat = self.flatten();
        let stamps = stamps_of(&flat);
        let order = order_by_time(&stamps);
        let ghost shown = table_records(self@);
        let mut rows: Vec<(Vec<String>, u16)> = Vec::new();
        let mut i: usize = 0;
        proof {
            lemma_flat_records_stored(self@);
            assert forall|j: int| 0 <= j < flat@.len() implies (#[trigger] flat@[j])@.mac_ap is Some
                && flat@[j]@.mac_client is Some by {
                assert(records_view(flat@)[j] == flat@[j]@);
            }
        }
        while i < order.len()
            invariant
                i <= order@.len(),
                order@.len() == flat@.len(),
                clock@.len() == flat@.len(),
                shown.len() == flat@.len(),
                shown == table_records(self@),
                records_view(flat@) == flat_records(self@),
                order@.map_values(|i: usize| i as int) == display_order(
                    last_stamps(flat_records(self@)),
                ),
                forall|j: int| 0 <= j < order@.len() ==> #[trigger] order@[j] < flat@.len(),
                forall|j: int|
                    0 <= j < flat@.len() ==> (#[trigger] flat@[j])@.mac_ap is Some
                        && flat@[j]@.mac_client is Some,
                rows@.len() == i,
                forall|j: int|
                    0 <= j < i ==> strings_view((#[trigger] rows@[j]).0@) == table_row(
                        shown[j],
                        clock@[j]@,
                        selected_row == Some(j as usize),
                    ).0 && rows@[j].1 == table_row(
                        shown[j],
                        clock@[j]@,
                        selected_row == Some(j as usize),
                    ).1,
            decreases order@.len() - i,
        {
            let at = order[i];
            let selected = match selected_row {
                Some(row) => row == i,
                None => false,
            };
            proof {
                assert(order@.map_values(|i: usize| i as int)[i as int] == at as int);
                assert(records_view(flat@)[at as int] == flat@[at as int]@);
                assert(shown[i as int] == flat@[at as int]@);
            }
            rows.push(build_row(&flat[at], clock[i].as_str(), selected));
            i = i + 1;
        }
        proof {
            let wanted = table_rows(self@, strings_view(clock@), selected_row);
            assert forall|j: int| 0 <= j < rows@.len() implies rows_view(rows@)[j]
                == wanted[j] by {
                assert(strings_view(clock@)[j] == clock@[j]@);
            }
            assert(rows_view(rows@) =~= wanted);
        }
        (headers, rows)
    }
}

/// The whole seconds in `nanos` nanoseconds.
pub open spec fn whole_seconds(nanos: u128) -> int {
    nanos as int / 1_000_000_000
}

/// Whether `c` is a decimal digit.
pub open spec fn is_decimal_digit(c: char) -> bool {
    0x30 <= c as u32 <= 0x39
}

/// Whether `text` has the shape of a time of day: two digits each for the
/// hour, the minute and the second, with colons between them.
pub open spec fn is_time_of_day(text: Seq<char>) -> bool {
    &&& text.len() == 8
    &&& is_decimal_digit(text[0]) && is_decimal_digit(text[1])
    &&& text[2] == ':'
    &&& is_decimal_digit(text[3]) && is_decimal_digit(text[4])
    &&& text[5] == ':'
    &&& is_decimal_digit(text[6]) && is_decimal_digit(text[7])
}

/// The clock text of an instant that has no time of day.
pub open spec fn no_time_of_day() -> Seq<char> {
    "--:--:--"@
}

/// The clock text for what the calendar gave: the time of day, or the row of
/// dashes where there is none.
pub open spec fn clock_text_for(found: Option<Seq<char>>) -> Seq<char> {
    match found {
        Some(text) => text,
        None => no_time_of_day(),
    }
}

/// Whether `text` may stand in the first cell of a row: a time of day, or the
/// row of dashes.
pub open spec fn is_clock_text(text: Seq<char>) -> bool {
    is_time_of_day(text) || text == no_time_of_day()
}

/// Calls `chrono::DateTime::from_timestamp` and, where it gives an instant,
/// `with_timezone` for `chrono::Local`, `format` with `%H:%M:%S` and
/// `to_string`: the local time of day, `secs` seconds after the Unix epoch.
/// The result is `None` where `chrono` cannot hold the instant.  Which hour
/// and minute come out depends on the time zone of the machine; what `chrono`
/// documents of the three items is that each is a number of two digits, padded
/// with a zero, and that is all that is claimed here.
#[verifier::external_body]
fn local_time_of_day(secs: i64) -> (text: Option<String>)
    ensures
        text matches Some(t) ==> is_time_of_day(t@),
{
    match chrono::DateTime::from_timestamp(secs, 0) {
        Some(instant) => Some(instant.with_timezone(&chrono::Local).format("%H:%M:%S").to_string()),
        None => None,
    }
}

/// The clock text for what the calendar gave: the time of day itself, or the
/// row of dashes where there is none.
pub fn clock_text_of(found: Option<String>) -> (text: String)
    ensures
        text@ == clock_text_for(text_view(found)),
{
    match found {
        Some(text) => text,
        None => String::from_str("--:--:--"),
    }
}

/// The clock text of an instant given in nanoseconds since the Unix epoch:
/// its local time of day, or a row of dashes for an instant that has none.
/// An instant whose seconds exceed the range of the calendar's counter has
/// none.
fn clock_text(nanos: u128) -> (text: String)
    ensures
        is_clock_text(text@),
        whole_seconds(nanos) > i64::MAX ==> text@ == no_time_of_day(),
{
    let secs: u128 = nanos / 1_000_000_000;
    if secs <= 0x7fff_ffff_ffff_ffff {
        clock_text_of(local_time_of_day(secs as i64))
    } else {
        clock_text_of(None)
    }
}

/// The time of the latest message of each of `records`.
fn stamps_of(records: &Vec<FourWayHandshake>) -> (stamps: Vec<u128>)
    ensures
        stamps@ == last_stamps(records_view(records@)),
{
    let mut stamps: Vec<u128> = Vec::new();
    let mut i: usize = 0;
    while i < records.len()
        invariant
            i <= records.len(),
            stamps@.len() == i,
            forall|j: int|
                0 <= j < i ==> stamps@[j] == last_stamps(records_view(records@))[j],
        decreases records.len() - i,
    {
        let stamp: u128 = match &records[i].last_msg {
            Some(key) => key.timestamp,
            None => 0,
        };
        assert(records_view(records@)[i as int] == records@[i as int]@);
        stamps.push(stamp);
        i = i + 1;
    }
    assert(stamps@ =~= last_stamps(records_view(records@)));
    stamps
}

/// In a well-formed store every record carries both addresses and a latest
/// message.
pub proof fn lemma_flat_records_stored(s: StoreState)
    requires
        store_wf(s),
    ensures
        forall|j: int|
            0 <= j < flat_records(s).len() ==> (#[trigger] flat_records(s)[j]).mac_ap is Some
                && flat_records(s)[j].mac_client is Some && flat_records(s)[j].last_msg is Some
                && flat_records(s)[j].wf(),
    decreases s.len(),
{
    if s.len() > 0 {
        let front = s.drop_last();
        assert forall|b: int, i: int|
            0 <= b < front.len() && 0 <= i < front[b].1.len() implies stored_under(
            #[trigger] front[b].1[i],
            front[b].0,
        ) by {
            assert(front[b] == s[b]);
        }
        assert(store_wf(front)) by {
            assert forall|b: int, c: int| 0 <= b < c < front.len() implies (#[trigger] front[b]).0
                != (#[trigger] front[c]).0 by {
                assert(front[b] == s[b] && front[c] == s[c]);
            }
        }
        lemma_flat_records_stored(front);
        let flat = flat_records(s);
        assert forall|j: int| 0 <= j < flat.len() implies (#[trigger] flat[j]).mac_ap is Some
            && flat[j].mac_client is Some && flat[j].last_msg is Some && flat[j].wf() by {
            if j >= flat_records(front).len() {
                let i = j - flat_records(front).len();
                assert(flat[j] == s.last().1[i]);
                assert(stored_under(s[s.len() - 1].1[i], s[s.len() - 1].0));
            } else {
                assert(flat[j] == flat_records(front)[j]);
            }
        }
    }
}

/// Intake keeps a store well formed.
pub proof fn lemma_ingest_keeps_wf(
    s: StoreState,
    ap_mac: MacAddress,
    client_mac: MacAddress,
    key: EapolKeyView,
    essid: Option<Seq<char>>,
)
    requires
        store_wf(s),
    ensures
        store_wf(ingest_spec(s, ap_mac, client_mac, key, essid).0),
{
    let pair = HandshakeSessionKey { ap_mac, client_mac };
    let opened = ingest_opened(s, pair);
    let b = bucket_position(s, pair, 0);
    lemma_bucket_position(s, pair, 0);
    let records = opened[b].1;
    lemma_first_accepting(records, key, 0);
    let i = first_accepting(records, key, 0);
    let after = ingest_records(records, ap_mac, client_mac, key, essid).0;
    let t = ingest_spec(s, ap_mac, client_mac, key, essid).0;
    assert(t == opened.update(b, (pair, after)));
    assert forall|j: int| 0 <= j < after.len() implies stored_under(#[trigger] after[j], pair) by {
        if i < records.len() {
            if j == i {
                assert(stored_under(opened[b].1[i], opened[b].0));
                lemma_add_key_keeps_wf(records[i], key);
            } else {
                assert(stored_under(opened[b].1[j], opened[b].0));
            }
        } else {
            if j < records.len() {
                assert(stored_under(opened[b].1[j], opened[b].0));
            } else {
                lemma_add_key_keeps_wf(HandshakeView::empty(), key);
            }
        }
    }
    assert forall|c: int, j: int| 0 <= c < t.len() && 0 <= j < t[c].1.len() implies stored_under(
        #[trigger] t[c].1[j],
        t[c].0,
    ) by {
        if c != b {
            assert(t[c] == s[c]);
            assert(stored_under(s[c].1[j], s[c].0));
        }
    }
    assert forall|c: int, d: int| 0 <= c < d < t.len() implies (#[trigger] t[c]).0 != (
    #[trigger] t[d]).0 by {
        if c < s.len() && d < s.len() {
            assert(s[c].0 != s[d].0);
        } else {
            assert(s[c].0 != pair);
        }
    }
}

/// Intake changes one record at most.  The buckets of other pairs stay as
/// they were; in the bucket of the frame's pair every record but the one that
/// took the frame stays as it was, so that a record which refuses the frame
/// is left unchanged however often the frame comes; and no record is removed.
pub proof fn lemma_ingest_changes_one_record(
    s: StoreState,
    ap_mac: MacAddress,
    client_mac: MacAddress,
    key: EapolKeyView,
    essid: Option<Seq<char>>,
)
    ensures
        ({
            let pair = HandshakeSessionKey { ap_mac, client_mac };
            let t = ingest_spec(s, ap_mac, client_mac, key, essid).0;
            &&& s.len() <= t.len() <= s.len() + 1
            &&& forall|b: int| 0 <= b < s.len() ==> (#[trigger] t[b]).0 == s[b].0
            &&& forall|b: int| 0 <= b < s.len() && s[b].0 != pair ==> #[trigger] t[b] == s[b]
            &&& forall|b: int|
                0 <= b < s.len() ==> s[b].1.len() <= (#[trigger] t[b]).1.len() <= s[b].1.len() + 1
            &&& forall|b: int, i: int|
                0 <= b < s.len() && 0 <= i < s[b].1.len() && add_key_spec(
                    #[trigger] s[b].1[i],
                    key,
                ) is Err ==> t[b].1[i] == s[b].1[i]
        }),
{
    let pair = HandshakeSessionKey { ap_mac, client_mac };
    let opened = ingest_opened(s, pair);
    let b = bucket_position(s, pair, 0);
    lemma_bucket_position(s, pair, 0);
    lemma_first_accepting(opened[b].1, key, 0);
}

/// Whether a record carries both addresses and the network name, or none of
/// the three.
pub open spec fn named_or_blank(h: HandshakeView) -> bool {
    (h.mac_ap is Some && h.mac_client is Some && h.essid is Some) || (h.mac_ap is None
        && h.mac_client is None && h.essid is None)
}

/// A record that has seen no frame carries neither address nor name, and the
/// intake of a frame that comes with a network name leaves every record with
/// all three or none of them, if that held before.
pub proof fn lemma_ingest_names_records(
    s: StoreState,
    ap_mac: MacAddress,
    client_mac: MacAddress,
    key: EapolKeyView,
    essid: Option<Seq<char>>,
)
    requires
        essid is Some,
        forall|b: int, i: int|
            0 <= b < s.len() && 0 <= i < s[b].1.len() ==> named_or_blank(#[trigger] s[b].1[i]),
    ensures
        named_or_blank(HandshakeView::empty()),
        ({
            let t = ingest_spec(s, ap_mac, client_mac, key, essid).0;
            forall|b: int, i: int|
                0 <= b < t.len() && 0 <= i < t[b].1.len() ==> named_or_blank(#[trigger] t[b].1[i])
        }),
{
    let pair = HandshakeSessionKey { ap_mac, client_mac };
    let opened = ingest_opened(s, pair);
    let p = bucket_position(s, pair, 0);
    lemma_bucket_position(s, pair, 0);
    let records = opened[p].1;
    lemma_first_accepting(records, key, 0);
    let t = ingest_spec(s, ap_mac, client_mac, key, essid).0;
    assert forall|b: int, i: int| 0 <= b < t.len() && 0 <= i < t[b].1.len() implies named_or_blank(
        #[trigger] t[b].1[i],
    ) by {
        if b != p {
            assert(t[b] == s[b]);
            assert(named_or_blank(s[b].1[i]));
        } else if i < records.len() && i != first_accepting(records, key, 0) {
            assert(t[b].1[i] == s[b].1[i]);
            assert(named_or_blank(s[b].1[i]));
        }
    }
}

/// What the same frame does when it comes twice to an empty store.  A frame
/// that a fresh record refuses leaves the bucket of its pair empty.  A frame
/// that a fresh record accepts is refused by the record that holds it when it
/// comes again, and opens a second record: the bucket then holds two records
/// in the same state, each with the frame in the slot of its kind, and the
/// first of them is what the first intake made it.
pub proof fn lemma_same_frame_twice(
    ap_mac: MacAddress,
    client_mac: MacAddress,
    key: EapolKeyView,
    essid: Option<Seq<char>>,
)
    ensures
        ({
            let pair = HandshakeSessionKey { ap_mac, client_mac };
            let once = ingest_spec(StoreState::empty(), ap_mac, client_mac, key, essid);
            let twice = ingest_spec(once.0, ap_mac, client_mac, key, essid);
            match add_key_spec(HandshakeView::empty(), key) {
                Ok(h) => {
                    let record = stamp(h, ap_mac, client_mac, essid);
                    &&& once.0 == seq![(pair, seq![record])]
                    &&& once.1 == Ok::<HandshakeView, HandshakeError>(record)
                    &&& twice.0 == seq![(pair, seq![record, record])]
                    &&& twice.1 == once.1
                },
                Err(e) => {
                    &&& once.0 == seq![(pair, Seq::<HandshakeView>::empty())]
                    &&& once.1 == Err::<HandshakeView, HandshakeError>(e)
                    &&& twice == once
                },
            }
        }),
{
    let pair = HandshakeSessionKey { ap_mac, client_mac };
    let none = StoreState::empty();
    let once = ingest_spec(none, ap_mac, client_mac, key, essid);
    let blank = Seq::<HandshakeView>::empty();
    assert(ingest_opened(none, pair) =~= seq![(pair, blank)]);
    match add_key_spec(HandshakeView::empty(), key) {
        Ok(h) => {
            let record = stamp(h, ap_mac, client_mac, essid);
            assert(once.0 =~= seq![(pair, seq![record])]);
            assert(bucket_position(once.0, pair, 0) == 0);
            assert(add_key_spec(record, key) is Err);
            let records = seq![record];
            assert(first_accepting(records, key, 1) == 1);
            assert(first_accepting(records, key, 0) == 1);
            let twice = ingest_spec(once.0, ap_mac, client_mac, key, essid);
            assert(records.push(record) =~= seq![record, record]);
            assert(twice.0 =~= seq![(pair, seq![record, record])]);
        },
        Err(e) => {
            assert(once.0 =~= seq![(pair, blank)]);
            assert(bucket_position(once.0, pair, 0) == 0);
            assert(first_accepting(blank, key, 0) == 0);
            let twice = ingest_spec(once.0, ap_mac, client_mac, key, essid);
            assert(twice.0 =~= once.0);
        },
    }
}

/// The records of the first `n` buckets are no more than those of all.
proof fn lemma_total_records_grows(s: StoreState, n: int)
    requires
        0 <= n <= s.len(),
    ensures
        total_records(s.take(n)) <= total_records(s),
    decreases s.len() - n,
{
    if n < s.len() {
        assert(s.take(n + 1).drop_last() =~= s.take(n));
        lemma_total_records_grows(s, n + 1);
    } else {
        assert(s.take(n) =~= s);
    }
}

} // verus!
