//! The campaign snapshot: the typed shape of one fetched view of remote
//! campaign state, and its decoding.
//!
//! Decoding runs in two stages, each with an exact contract. Navigation
//! ([`decode_snapshot`]) walks the raw JSON document and pulls out plain text
//! pieces; it fails closed with a [`DecodeError`] exactly when a required
//! field is missing or of the wrong type. Building ([`build_snapshot`]) turns
//! those pieces into typed values — cents, UTC seconds.

use vstd::prelude::*;

use crate::amount::{amount_cents_of, parse_amount_cents};
use crate::clock::{parse_utc_instant, utc_secs_of};
use crate::json::{json_array, json_entries_of, json_get, json_items_of, json_member_of,
    json_number_bytes, json_number_text_of, json_object_entries, json_str, json_string_of,
    json_value_of, parse_json};

verus! {

/// One discrete contribution reported by the remote source.
pub struct Transaction {
    /// The contribution's UTC instant, in seconds.
    pub timestamp_secs: i64,
    /// The contributed amount, in cents; negative amounts pass through.
    pub amount_cents: i64,
    /// The contributing party's stable identifier.
    pub contributor_id: String,
}

/// The mathematical shape of a [`Transaction`].
pub ghost struct SpecTransaction {
    pub timestamp_secs: int,
    pub amount_cents: int,
    pub contributor_id: Seq<char>,
}

impl View for Transaction {
    type V = SpecTransaction;

    open spec fn view(&self) -> SpecTransaction {
        SpecTransaction {
            timestamp_secs: self.timestamp_secs as int,
            amount_cents: self.amount_cents as int,
            contributor_id: self.contributor_id@,
        }
    }
}

/// One fetched-and-decoded view of remote campaign state.
pub struct Snapshot {
    /// The crowdfunding pool this snapshot describes.
    pub pool_id: String,
    /// The campaign's title; empty when the remote document carries none.
    pub title: String,
    /// The campaign owner's stable contributor identifier.
    pub owner_id: String,
    /// The owner's display name; empty when the remote document carries none.
    pub owner_name: String,
    /// The owner's cumulative pledged amount, in cents.
    pub owner_pledge_cents: i64,
    /// The discrete contributions, in remote source order.
    pub txns: Vec<Transaction>,
    /// Contributor identifier and display name pairs, in the remote map's
    /// iteration order.
    pub contributors: Vec<(String, String)>,
}

/// The mathematical shape of a [`Snapshot`].
pub ghost struct SpecSnapshot {
    pub pool_id: Seq<char>,
    pub title: Seq<char>,
    pub owner_id: Seq<char>,
    pub owner_name: Seq<char>,
    pub owner_pledge_cents: int,
    pub txns: Seq<SpecTransaction>,
    pub contributors: Seq<(Seq<char>, Seq<char>)>,
}

impl View for Snapshot {
    type V = SpecSnapshot;

    open spec fn view(&self) -> SpecSnapshot {
        SpecSnapshot {
            pool_id: self.pool_id@,
            title: self.title@,
            owner_id: self.owner_id@,
            owner_name: self.owner_name@,
            owner_pledge_cents: self.owner_pledge_cents as int,
            txns: self.txns@.map_values(|t: Transaction| t@),
            contributors: self.contributors@.map_values(|p: (String, String)| (p.0@, p.1@)),
        }
    }
}

/// Why a fetched document could not be decoded into a [`Snapshot`].
#[derive(Debug, PartialEq, Eq, Structural)]
pub enum DecodeError {
    /// The document is not valid JSON at all.
    NotJson,
    /// A required field is missing or of the wrong type.
    MissingField,
    /// The owner's pledge is a number whose text does not parse into cents.
    BadPledgeAmount,
    /// The transaction at this position has a date that is not an instant.
    BadTransactionDate(usize),
    /// The transaction at this position has a number whose text does not
    /// parse into cents.
    BadTransactionAmount(usize),
}

/// One transaction's undecoded text pieces, as pulled from the document.
pub struct RawTransaction {
    /// The instant, as RFC 3339 text.
    pub date_text: String,
    /// The amount, as decimal number text.
    pub amount_text: Vec<u8>,
    /// The contributing party's stable identifier.
    pub contributor_id: String,
}

/// A snapshot's undecoded text pieces, as pulled from the document.
pub struct RawSnapshot {
    pub pool_id: String,
    pub title: String,
    pub owner_id: String,
    pub owner_name: String,
    /// The owner's cumulative pledge, as decimal number text.
    pub pledge_text: Vec<u8>,
    pub txns: Vec<RawTransaction>,
    pub contributors: Vec<(String, String)>,
}

/// Whether a raw transaction's date and amount both decode.
pub open spec fn txn_raw_ok(t: RawTransaction) -> bool {
    utc_secs_of(t.date_text@) is Some && amount_cents_of(t.amount_text@) is Some
}

/// Whether a decoded transaction is exactly the raw one's reading.
pub open spec fn txn_decoded(rt: RawTransaction, st: Transaction) -> bool {
    &&& utc_secs_of(rt.date_text@) == Some(st.timestamp_secs as int)
    &&& amount_cents_of(rt.amount_text@) == Some(st.amount_cents as int)
    &&& st.contributor_id@ == rt.contributor_id@
}

/// Builds the typed snapshot from raw text pieces.
///
/// Succeeds exactly when the pledge text and every transaction's date and
/// amount text decode; the first failure, pledge first and then transactions
/// in order, names the error.
pub fn build_snapshot(raw: RawSnapshot) -> (r: Result<Snapshot, DecodeError>)
    ensures
        match r {
            Ok(s) => {
                &&& amount_cents_of(raw.pledge_text@) == Some(s.owner_pledge_cents as int)
                &&& s.pool_id@ == raw.pool_id@
                &&& s.title@ == raw.title@
                &&& s.owner_id@ == raw.owner_id@
                &&& s.owner_name@ == raw.owner_name@
                &&& s.contributors@ == raw.contributors@
                &&& s.txns@.len() == raw.txns@.len()
                &&& forall|i: int|
                    0 <= i < raw.txns@.len() ==> txn_decoded(raw.txns@[i], s.txns@[i])
            },
            Err(e) => match e {
                DecodeError::BadPledgeAmount => amount_cents_of(raw.pledge_text@) is None,
                DecodeError::BadTransactionDate(i) => {
                    &&& amount_cents_of(raw.pledge_text@) is Some
                    &&& i < raw.txns@.len()
                    &&& utc_secs_of(raw.txns@[i as int].date_text@) is None
                    &&& forall|j: int| 0 <= j < i ==> txn_raw_ok(raw.txns@[j])
                },
                DecodeError::BadTransactionAmount(i) => {
                    &&& amount_cents_of(raw.pledge_text@) is Some
                    &&& i < raw.txns@.len()
                    &&& utc_secs_of(raw.txns@[i as int].date_text@) is Some
                    &&& amount_cents_of(raw.txns@[i as int].amount_text@) is None
                    &&& forall|j: int| 0 <= j < i ==> txn_raw_ok(raw.txns@[j])
                },
                _ => false,
            },
        },
{
    let pledge_cents = match parse_amount_cents(raw.pledge_text.as_slice()) {
        Some(p) => p,
        None => {
            return Err(DecodeError::BadPledgeAmount);
        },
    };
    let mut txns: Vec<Transaction> = Vec::new();
    let mut i: usize = 0;
    while i < raw.txns.len()
        invariant
            i <= raw.txns@.len(),
            txns@.len() == i,
            amount_cents_of(raw.pledge_text@) is Some,
            forall|j: int| 0 <= j < i ==> txn_raw_ok(raw.txns@[j]),
            forall|j: int| 0 <= j < i ==> txn_decoded(raw.txns@[j], txns@[j]),
        decreases raw.txns@.len() - i,
    {
        let rt = &raw.txns[i];
        let ts = match parse_utc_instant(rt.date_text.as_str()) {
            Some(t) => t,
            None => {
                return Err(DecodeError::BadTransactionDate(i));
            },
        };
        let amt = match parse_amount_cents(rt.amount_text.as_slice()) {
            Some(a) => a,
            None => {
                return Err(DecodeError::BadTransactionAmount(i));
            },
        };
        txns.push(
            Transaction {
                timestamp_secs: ts,
                amount_cents: amt,
                contributor_id: rt.contributor_id.clone(),
            },
        );
        i = i + 1;
    }
    Ok(
        Snapshot {
            pool_id: raw.pool_id,
            title: raw.title,
            owner_id: raw.owner_id,
            owner_name: raw.owner_name,
            owner_pledge_cents: pledge_cents,
            txns,
            contributors: raw.contributors,
        },
    )
}

/// The string text of an object's member under a key, when both exist.
pub open spec fn string_member_of(v: serde_json::Value, key: Seq<char>) -> Option<Seq<char>> {
    match json_member_of(v, key) {
        Some(f) => json_string_of(f),
        None => None,
    }
}

/// The number text of an object's member under a key, when both exist.
pub open spec fn number_member_of(v: serde_json::Value, key: Seq<char>) -> Option<Seq<u8>> {
    match json_member_of(v, key) {
        Some(f) => json_number_text_of(f),
        None => None,
    }
}

/// The string text of an optional member: empty when absent or not a string.
pub open spec fn optional_text_of(v: serde_json::Value, key: Seq<char>) -> Seq<char> {
    match string_member_of(v, key) {
        Some(s) => s,
        None => Seq::empty(),
    }
}

/// The document's campaign object for one pool.
pub open spec fn campaign_of(root: serde_json::Value, pool_id: Seq<char>) -> Option<
    serde_json::Value,
> {
    match json_member_of(root, "campaign"@) {
        Some(cs) => json_member_of(cs, pool_id),
        None => None,
    }
}

/// The campaign's owner object.
pub open spec fn owner_of(c: serde_json::Value) -> Option<serde_json::Value> {
    json_member_of(c, "owner"@)
}

/// The owner's identifier text.
pub open spec fn owner_id_of(c: serde_json::Value) -> Option<Seq<char>> {
    match owner_of(c) {
        Some(o) => string_member_of(o, "id"@),
        None => None,
    }
}

/// The pledge's number text.
pub open spec fn pledge_text_of(c: serde_json::Value) -> Option<Seq<u8>> {
    number_member_of(c, "pledge"@)
}

/// The document's transaction values, in list order.
pub open spec fn txn_list_of(root: serde_json::Value) -> Option<Seq<serde_json::Value>> {
    match json_member_of(root, "txns"@) {
        Some(t) => match json_member_of(t, "list"@) {
            Some(l) => json_items_of(l),
            None => None,
        },
        None => None,
    }
}

/// The document's contributor map entries, in map order.
pub open spec fn contrib_entries_of(root: serde_json::Value) -> Option<
    Seq<(Seq<char>, serde_json::Value)>,
> {
    match json_member_of(root, "contributors"@) {
        Some(c) => match json_member_of(c, "map"@) {
            Some(m) => json_entries_of(m),
            None => None,
        },
        None => None,
    }
}

/// Whether one transaction value carries its three required fields.
pub open spec fn txn_fields_ok(e: serde_json::Value) -> bool {
    &&& string_member_of(e, "date"@) is Some
    &&& number_member_of(e, "amount"@) is Some
    &&& string_member_of(e, "contributor_id"@) is Some
}

/// Whether one transaction value's fields are present and their texts parse.
pub open spec fn txn_value_parses(e: serde_json::Value) -> bool {
    &&& txn_fields_ok(e)
    &&& utc_secs_of(string_member_of(e, "date"@)->Some_0) is Some
    &&& amount_cents_of(number_member_of(e, "amount"@)->Some_0) is Some
}

/// Whether every required read of the document succeeds: the pool's campaign
/// with an owner identifier (a string) and a pledge (a number), the
/// transaction list (an array whose elements each carry a date string, an
/// amount number and a contributor identifier string), and the contributor
/// map (an object whose members each carry a name string).
pub open spec fn navigation_ok(root: serde_json::Value, pool_id: Seq<char>) -> bool {
    &&& campaign_of(root, pool_id) matches Some(c) && owner_id_of(c) is Some && pledge_text_of(
        c,
    ) is Some
    &&& txn_list_of(root) matches Some(ts) && (forall|i: int|
        0 <= i < ts.len() ==> txn_fields_ok(#[trigger] ts[i]))
    &&& contrib_entries_of(root) matches Some(es) && (forall|i: int|
        0 <= i < es.len() ==> string_member_of((#[trigger] es[i]).1, "full_name"@) is Some)
}

/// What a successful decode returns: every required read succeeds, and each
/// snapshot field is its member chain's reading — amounts as cents, dates as
/// UTC seconds, title and owner name defaulting to empty when absent.
pub open spec fn decoded_ok(root: serde_json::Value, pool_id: Seq<char>, s: Snapshot) -> bool {
    &&& navigation_ok(root, pool_id)
    &&& campaign_of(root, pool_id) matches Some(c) && {
        &&& s.pool_id@ == pool_id
        &&& s.title@ == optional_text_of(c, "title"@)
        &&& owner_of(c) matches Some(o) && s.owner_name@ == optional_text_of(o, "full_name"@)
        &&& s.owner_id@ == owner_id_of(c)->Some_0
        &&& amount_cents_of(pledge_text_of(c)->Some_0) == Some(s.owner_pledge_cents as int)
    }
    &&& txn_list_of(root) matches Some(ts) && {
        &&& s.txns@.len() == ts.len()
        &&& forall|i: int|
            0 <= i < ts.len() ==> {
                &&& utc_secs_of(string_member_of(#[trigger] ts[i], "date"@)->Some_0) == Some(
                    s.txns@[i].timestamp_secs as int,
                )
                &&& amount_cents_of(number_member_of(ts[i], "amount"@)->Some_0) == Some(
                    s.txns@[i].amount_cents as int,
                )
                &&& s.txns@[i].contributor_id@ == string_member_of(
                    ts[i],
                    "contributor_id"@,
                )->Some_0
            }
    }
    &&& contrib_entries_of(root) matches Some(es) && {
        &&& s.contributors@.len() == es.len()
        &&& forall|i: int|
            0 <= i < es.len() ==> {
                &&& (#[trigger] s.contributors@[i]).0@ == es[i].0
                &&& s.contributors@[i].1@ == string_member_of(es[i].1, "full_name"@)->Some_0
            }
    }
}

/// Which error a failed decode returns: a missing or mistyped required field
/// if and only if [`DecodeError::MissingField`]; otherwise the first text
/// that does not parse, the pledge first and then the transactions in order.
pub open spec fn decoded_err(root: serde_json::Value, pool_id: Seq<char>, e: DecodeError) -> bool {
    match e {
        DecodeError::NotJson => false,
        DecodeError::MissingField => !navigation_ok(root, pool_id),
        DecodeError::BadPledgeAmount => {
            &&& navigation_ok(root, pool_id)
            &&& campaign_of(root, pool_id) matches Some(c) && amount_cents_of(
                pledge_text_of(c)->Some_0,
            ) is None
        },
        DecodeError::BadTransactionDate(i) => {
            &&& navigation_ok(root, pool_id)
            &&& campaign_of(root, pool_id) matches Some(c) && amount_cents_of(
                pledge_text_of(c)->Some_0,
            ) is Some
            &&& txn_list_of(root) matches Some(ts) && {
                &&& i < ts.len()
                &&& utc_secs_of(string_member_of(ts[i as int], "date"@)->Some_0) is None
                &&& forall|j: int| 0 <= j < i ==> txn_value_parses(#[trigger] ts[j])
            }
        },
        DecodeError::BadTransactionAmount(i) => {
            &&& navigation_ok(root, pool_id)
            &&& campaign_of(root, pool_id) matches Some(c) && amount_cents_of(
                pledge_text_of(c)->Some_0,
            ) is Some
            &&& txn_list_of(root) matches Some(ts) && {
                &&& i < ts.len()
                &&& utc_secs_of(string_member_of(ts[i as int], "date"@)->Some_0) is Some
                &&& amount_cents_of(number_member_of(ts[i as int], "amount"@)->Some_0) is None
                &&& forall|j: int| 0 <= j < i ==> txn_value_parses(#[trigger] ts[j])
            }
        },
    }
}

/// Whether a raw transaction's pieces are exactly one transaction value's
/// field readings.
pub open spec fn raw_txn_matches(e: serde_json::Value, rt: RawTransaction) -> bool {
    &&& txn_fields_ok(e)
    &&& rt.date_text@ == string_member_of(e, "date"@)->Some_0
    &&& rt.amount_text@ == number_member_of(e, "amount"@)->Some_0
    &&& rt.contributor_id@ == string_member_of(e, "contributor_id"@)->Some_0
}

/// Whether a contributor pair is exactly one map entry's reading.
pub open spec fn contrib_entry_matches(
    e: (Seq<char>, serde_json::Value),
    p: (String, String),
) -> bool {
    &&& string_member_of(e.1, "full_name"@) is Some
    &&& p.0@ == e.0
    &&& p.1@ == string_member_of(e.1, "full_name"@)->Some_0
}

fn optional_text(v: &serde_json::Value, key: &str) -> (r: String)
    ensures
        r@ == optional_text_of(*v, key@),
{
    match json_get(v, key) {
        Some(field) => match json_str(field) {
            Some(s) => s,
            None => String::new(),
        },
        None => String::new(),
    }
}

/// Decodes a fetched document into a [`Snapshot`] for one pool.
///
/// The required sub-structure is `campaign.<pool>.owner.id` (a string),
/// `campaign.<pool>.pledge` (a number), `txns.list` (an array of objects with
/// a `date` string, an `amount` number and a `contributor_id` string), and
/// `contributors.map` (an object whose members each carry a `full_name`
/// string); any of these missing or of the wrong type fails the decode with
/// [`DecodeError::MissingField`], exactly as [`decoded_err`] says. The title
/// and the owner's display name are optional and default to empty. On
/// success each field is its member chain's reading, as [`decoded_ok`] says.
pub fn decode_snapshot(root: &serde_json::Value, pool_id: &str) -> (r: Result<
    Snapshot,
    DecodeError,
>)
    ensures
        match r {
            Ok(s) => decoded_ok(*root, pool_id@, s),
            Err(e) => decoded_err(*root, pool_id@, e),
        },
{
    let ghost g_root: serde_json::Value = *root;
    let campaigns = match json_get(root, "campaign") {
        Some(v) => v,
        None => {
            return Err(DecodeError::MissingField);
        },
    };
    let campaign = match json_get(campaigns, pool_id) {
        Some(v) => v,
        None => {
            return Err(DecodeError::MissingField);
        },
    };
    let ghost g_campaign: serde_json::Value = *campaign;
    assert(campaign_of(g_root, pool_id@) == Some(g_campaign));
    let title = optional_text(campaign, "title");
    let owner = match json_get(campaign, "owner") {
        Some(v) => v,
        None => {
            return Err(DecodeError::MissingField);
        },
    };
    let owner_id = match json_get(owner, "id") {
        Some(v) => match json_str(v) {
            Some(s) => s,
            None => {
                return Err(DecodeError::MissingField);
            },
        },
        None => {
            return Err(DecodeError::MissingField);
        },
    };
    assert(owner_id_of(g_campaign) == Some(owner_id@));
    let owner_name = optional_text(owner, "full_name");
    let pledge_text = match json_get(campaign, "pledge") {
        Some(v) => match json_number_bytes(v) {
            Some(b) => b,
            None => {
                return Err(DecodeError::MissingField);
            },
        },
        None => {
            return Err(DecodeError::MissingField);
        },
    };
    assert(pledge_text_of(g_campaign) == Some(pledge_text@));

    let txn_values = match json_get(root, "txns") {
        Some(v) => match json_get(v, "list") {
            Some(l) => match json_array(l) {
                Some(items) => items,
                None => {
                    return Err(DecodeError::MissingField);
                },
            },
            None => {
                return Err(DecodeError::MissingField);
            },
        },
        None => {
            return Err(DecodeError::MissingField);
        },
    };
    let ghost ts: Seq<serde_json::Value> = txn_values@;
    assert(txn_list_of(g_root) == Some(ts));
    let mut txns: Vec<RawTransaction> = Vec::new();
    let mut i: usize = 0;
    while i < txn_values.len()
        invariant
            g_root == *root,
            i <= txn_values@.len(),
            ts == txn_values@,
            txn_list_of(g_root) == Some(ts),
            txns@.len() == i,
            forall|m: int| 0 <= m < i ==> raw_txn_matches(ts[m], #[trigger] txns@[m]),
        decreases txn_values@.len() - i,
    {
        let elem = &txn_values[i];
        let date_text = match json_get(elem, "date") {
            Some(v) => match json_str(v) {
                Some(s) => s,
                None => {
                    return Err(DecodeError::MissingField);
                },
            },
            None => {
                return Err(DecodeError::MissingField);
            },
        };
        let amount_text = match json_get(elem, "amount") {
            Some(v) => match json_number_bytes(v) {
                Some(b) => b,
                None => {
                    return Err(DecodeError::MissingField);
                },
            },
            None => {
                return Err(DecodeError::MissingField);
            },
        };
        let contributor_id = match json_get(elem, "contributor_id") {
            Some(v) => match json_str(v) {
                Some(s) => s,
                None => {
                    return Err(DecodeError::MissingField);
                },
            },
            None => {
                return Err(DecodeError::MissingField);
            },
        };
        txns.push(RawTransaction { date_text, amount_text, contributor_id });
        i = i + 1;
    }

    let entries = match json_get(root, "contributors") {
        Some(v) => match json_get(v, "map") {
            Some(m) => match json_object_entries(m) {
                Some(e) => e,
                None => {
                    return Err(DecodeError::MissingField);
                },
            },
            None => {
                return Err(DecodeError::MissingField);
            },
        },
        None => {
            return Err(DecodeError::MissingField);
        },
    };
    let ghost es: Seq<(Seq<char>, serde_json::Value)> = entries@.map_values(
        |p: (String, serde_json::Value)| (p.0@, p.1),
    );
    assert(contrib_entries_of(g_root) == Some(es));
    let mut contributors: Vec<(String, String)> = Vec::new();
    let mut j: usize = 0;
    while j < entries.len()
        invariant
            g_root == *root,
            j <= entries@.len(),
            es == entries@.map_values(|p: (String, serde_json::Value)| (p.0@, p.1)),
            contrib_entries_of(g_root) == Some(es),
            contributors@.len() == j,
            forall|m: int| 0 <= m < j ==> contrib_entry_matches(es[m], #[trigger] contributors@[m]),
        decreases entries@.len() - j,
    {
        let entry = &entries[j];
        let full_name = match json_get(&entry.1, "full_name") {
            Some(v) => match json_str(v) {
                Some(s) => s,
                None => {
                    proof {
                        assert(es[j as int] == (entry.0@, entry.1));
                    }
                    return Err(DecodeError::MissingField);
                },
            },
            None => {
                proof {
                    assert(es[j as int] == (entry.0@, entry.1));
                }
                return Err(DecodeError::MissingField);
            },
        };
        contributors.push((entry.0.clone(), full_name));
        proof {
            assert(es[j as int] == (entry.0@, entry.1));
            assert(contrib_entry_matches(es[j as int], contributors@[j as int]));
        }
        j = j + 1;
    }

    proof {
        assert forall|m: int| 0 <= m < ts.len() implies txn_fields_ok(#[trigger] ts[m]) by {
            assert(raw_txn_matches(ts[m], txns@[m]));
        }
        assert forall|m: int|
            0 <= m < es.len() implies string_member_of(
                (#[trigger] es[m]).1,
                "full_name"@,
            ) is Some by {
            assert(contrib_entry_matches(es[m], contributors@[m]));
        }
    }
    assert(navigation_ok(g_root, pool_id@));
    let raw = RawSnapshot {
        pool_id: pool_id.to_owned(),
        title,
        owner_id,
        owner_name,
        pledge_text,
        txns,
        contributors,
    };
    let ghost g_raw = raw;
    let result = build_snapshot(raw);
    proof {
        match &result {
            Ok(s) => {
                assert forall|m: int| 0 <= m < ts.len() implies {
                    &&& utc_secs_of(string_member_of(#[trigger] ts[m], "date"@)->Some_0) == Some(
                        s.txns@[m].timestamp_secs as int,
                    )
                    &&& amount_cents_of(number_member_of(ts[m], "amount"@)->Some_0) == Some(
                        s.txns@[m].amount_cents as int,
                    )
                    &&& s.txns@[m].contributor_id@ == string_member_of(
                        ts[m],
                        "contributor_id"@,
                    )->Some_0
                } by {
                    assert(raw_txn_matches(ts[m], g_raw.txns@[m]));
                    assert(txn_decoded(g_raw.txns@[m], s.txns@[m]));
                }
                assert forall|m: int| 0 <= m < es.len() implies {
                    &&& (#[trigger] s.contributors@[m]).0@ == es[m].0
                    &&& s.contributors@[m].1@ == string_member_of(es[m].1, "full_name"@)->Some_0
                } by {
                    assert(contrib_entry_matches(es[m], g_raw.contributors@[m]));
                    assert(s.contributors@[m] == g_raw.contributors@[m]);
                }
            },
            Err(e) => {
                match e {
                    DecodeError::BadTransactionDate(bi_ref) => {
                        let bi = *bi_ref;
                        assert forall|m: int| 0 <= m < bi implies txn_value_parses(
                            #[trigger] ts[m],
                        ) by {
                            assert(raw_txn_matches(ts[m], g_raw.txns@[m]));
                            assert(txn_raw_ok(g_raw.txns@[m]));
                        }
                        assert(raw_txn_matches(ts[bi as int], g_raw.txns@[bi as int]));
                    },
                    DecodeError::BadTransactionAmount(bi_ref) => {
                        let bi = *bi_ref;
                        assert forall|m: int| 0 <= m < bi implies txn_value_parses(
                            #[trigger] ts[m],
                        ) by {
                            assert(raw_txn_matches(ts[m], g_raw.txns@[m]));
                            assert(txn_raw_ok(g_raw.txns@[m]));
                        }
                        assert(raw_txn_matches(ts[bi as int], g_raw.txns@[bi as int]));
                    },
                    _ => {},
                }
            },
        }
    }
    result
}

/// Decodes fetched JSON text into a [`Snapshot`] for one pool: parses the
/// text ([`DecodeError::NotJson`] exactly when it is not JSON), then decodes
/// the parsed document as [`decode_snapshot`] says.
pub fn decode_snapshot_str(json_text: &str, pool_id: &str) -> (r: Result<Snapshot, DecodeError>)
    ensures
        match r {
            Ok(s) => json_value_of(json_text@) matches Some(root) && decoded_ok(
                root,
                pool_id@,
                s,
            ),
            Err(e) => match e {
                DecodeError::NotJson => json_value_of(json_text@) is None,
                _ => json_value_of(json_text@) matches Some(root) && decoded_err(
                    root,
                    pool_id@,
                    e,
                ),
            },
        },
{
    let root = match parse_json(json_text) {
        Some(v) => v,
        None => {
            return Err(DecodeError::NotJson);
        },
    };
    decode_snapshot(&root, pool_id)
}

} // verus!
