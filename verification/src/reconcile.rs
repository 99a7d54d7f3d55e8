//! The reconciliation engine: from a snapshot and the owner's
//! already-recorded payment total, the contributor and payment rows a run
//! should upsert.
//!
//! The engine is a pure, single-pass transformation. Its output is pinned by
//! [`expected_contributors`] and [`expected_payments`].

use vstd::prelude::*;

use crate::clock::now_timestamp;
use crate::ident::{derive_payment_id, payment_id_spec};
use crate::snapshot::{Snapshot, SpecSnapshot, SpecTransaction};

verus! {

/// A contributor row destined for the store: a stable identifier and the
/// display name seen for it.
pub struct ContributorRecord {
    pub contributor_id: String,
    pub full_name: String,
}

/// The mathematical shape of a [`ContributorRecord`].
pub ghost struct SpecContributor {
    pub contributor_id: Seq<char>,
    pub full_name: Seq<char>,
}

impl View for ContributorRecord {
    type V = SpecContributor;

    open spec fn view(&self) -> SpecContributor {
        SpecContributor { contributor_id: self.contributor_id@, full_name: self.full_name@ }
    }
}

/// A payment row destined for the store, keyed by its stable identifier.
pub struct PaymentRecord {
    /// The stable deduplication identifier (see [`payment_id_spec`]).
    pub id: String,
    /// The payment's UTC instant, in seconds; the store derives its calendar
    /// date from it.
    pub date_secs: i64,
    /// The paid amount, in cents.
    pub amount_cents: i64,
    /// The paying party's stable identifier.
    pub contributor_id: String,
}

/// The mathematical shape of a [`PaymentRecord`].
pub ghost struct SpecPayment {
    pub id: Seq<char>,
    pub date_secs: int,
    pub amount_cents: int,
    pub contributor_id: Seq<char>,
}

impl View for PaymentRecord {
    type V = SpecPayment;

    open spec fn view(&self) -> SpecPayment {
        SpecPayment {
            id: self.id@,
            date_secs: self.date_secs as int,
            amount_cents: self.amount_cents as int,
            contributor_id: self.contributor_id@,
        }
    }
}

/// The payment row that one remote transaction yields: amount, instant and
/// contributor copied verbatim, identifier derived from instant and
/// contributor.
pub open spec fn txn_payment(t: SpecTransaction) -> SpecPayment {
    SpecPayment {
        id: payment_id_spec(t.timestamp_secs, t.contributor_id),
        date_secs: t.timestamp_secs,
        amount_cents: t.amount_cents,
        contributor_id: t.contributor_id,
    }
}

/// The synthetic payment row for the owner's unrecorded remainder, dated at
/// the run's instant.
pub open spec fn owner_remainder_payment(s: SpecSnapshot, recorded: int, now: int) -> SpecPayment {
    SpecPayment {
        id: payment_id_spec(now, s.owner_id),
        date_secs: now,
        amount_cents: s.owner_pledge_cents - recorded,
        contributor_id: s.owner_id,
    }
}

/// Every payment row a run should upsert: the owner-remainder payment first
/// when the pledge exceeds the recorded sum (and not at all otherwise), then
/// one row per transaction in snapshot order.
pub open spec fn expected_payments(s: SpecSnapshot, recorded: int, now: int) -> Seq<SpecPayment> {
    let from_txns = s.txns.map_values(|t: SpecTransaction| txn_payment(t));
    if s.owner_pledge_cents > recorded {
        seq![owner_remainder_payment(s, recorded, now)] + from_txns
    } else {
        from_txns
    }
}

/// Every contributor row a run should upsert: the owner first, then the
/// contributor map's entries in their order. Duplicates are permitted; the
/// store's idempotent upsert collapses them.
pub open spec fn expected_contributors(s: SpecSnapshot) -> Seq<SpecContributor> {
    seq![SpecContributor { contributor_id: s.owner_id, full_name: s.owner_name }]
        + s.contributors.map_values(
        |p: (Seq<char>, Seq<char>)| SpecContributor { contributor_id: p.0, full_name: p.1 },
    )
}

/// The views of a sequence of contributor rows.
pub open spec fn contributor_views(v: Seq<ContributorRecord>) -> Seq<SpecContributor> {
    v.map_values(|c: ContributorRecord| c@)
}

/// The views of a sequence of payment rows.
pub open spec fn payment_views(v: Seq<PaymentRecord>) -> Seq<SpecPayment> {
    v.map_values(|p: PaymentRecord| p@)
}

/// Computes the rows to upsert for one run: exactly
/// [`expected_contributors`] and [`expected_payments`] for the given
/// snapshot, recorded owner sum, and run instant.
pub fn reconcile(s: &Snapshot, recorded_cents: i64, now_secs: i64) -> (r: (
    Vec<ContributorRecord>,
    Vec<PaymentRecord>,
))
    requires
        s.owner_pledge_cents - recorded_cents <= i64::MAX,
    ensures
        contributor_views(r.0@) == expected_contributors(s@),
        payment_views(r.1@) == expected_payments(s@, recorded_cents as int, now_secs as int),
{
    let ghost expected_c = expected_contributors(s@);
    let mut contributors: Vec<ContributorRecord> = Vec::new();
    contributors.push(
        ContributorRecord {
            contributor_id: s.owner_id.clone(),
            full_name: s.owner_name.clone(),
        },
    );
    assert(contributor_views(contributors@) =~= expected_c.take(1));
    let mut i: usize = 0;
    while i < s.contributors.len()
        invariant
            i <= s.contributors@.len(),
            contributors@.len() == 1 + i,
            expected_c == expected_contributors(s@),
            contributor_views(contributors@) == expected_c.take(1 + i as int),
        decreases s.contributors@.len() - i,
    {
        let entry = &s.contributors[i];
        contributors.push(
            ContributorRecord { contributor_id: entry.0.clone(), full_name: entry.1.clone() },
        );
        proof {
            assert(expected_c[1 + i as int] == (SpecContributor {
                contributor_id: s@.contributors[i as int].0,
                full_name: s@.contributors[i as int].1,
            }));
            assert(contributor_views(contributors@) =~= expected_c.take(2 + i as int));
        }
        i = i + 1;
    }
    proof {
        assert(expected_c.take(1 + s.contributors@.len() as int) =~= expected_c);
    }

    let ghost expected_p = expected_payments(s@, recorded_cents as int, now_secs as int);
    let ghost offset: int = if s.owner_pledge_cents > recorded_cents { 1int } else { 0int };
    let mut payments: Vec<PaymentRecord> = Vec::new();
    if s.owner_pledge_cents > recorded_cents {
        let remainder = s.owner_pledge_cents - recorded_cents;
        let id = derive_payment_id(now_secs, s.owner_id.as_str());
        payments.push(
            PaymentRecord {
                id,
                date_secs: now_secs,
                amount_cents: remainder,
                contributor_id: s.owner_id.clone(),
            },
        );
    }
    assert(payment_views(payments@) =~= expected_p.take(offset));
    let mut j: usize = 0;
    while j < s.txns.len()
        invariant
            j <= s.txns@.len(),
            payments@.len() == offset + j,
            offset == (if s@.owner_pledge_cents > recorded_cents as int {
                1int
            } else {
                0int
            }),
            expected_p == expected_payments(s@, recorded_cents as int, now_secs as int),
            payment_views(payments@) == expected_p.take(offset + j),
        decreases s.txns@.len() - j,
    {
        let t = &s.txns[j];
        let id = derive_payment_id(t.timestamp_secs, t.contributor_id.as_str());
        payments.push(
            PaymentRecord {
                id,
                date_secs: t.timestamp_secs,
                amount_cents: t.amount_cents,
                contributor_id: t.contributor_id.clone(),
            },
        );
        proof {
            assert(expected_p[offset + j] == txn_payment(s@.txns[j as int]));
            assert(payment_views(payments@) =~= expected_p.take(offset + j + 1));
        }
        j = j + 1;
    }
    proof {
        assert(expected_p.take(offset + s.txns@.len() as int) =~= expected_p);
    }
    (contributors, payments)
}

/// Law: reconciliation is idempotent up to the run instant. Two runs over the
/// same snapshot and the same recorded sum emit the same number of payment
/// rows and identical transaction-derived rows, identifiers included; when no
/// remainder is owed the whole outputs coincide, and when one is owed only
/// the synthetic owner row's identifier and date differ (each run derives the
/// identifier from its own instant), while its amount and contributor agree.
pub proof fn lemma_reconcile_idempotent(s: SpecSnapshot, recorded: int, n1: int, n2: int)
    ensures
        expected_payments(s, recorded, n1).len() == expected_payments(s, recorded, n2).len(),
        s.owner_pledge_cents <= recorded ==> expected_payments(s, recorded, n1)
            == expected_payments(s, recorded, n2),
        s.owner_pledge_cents > recorded ==> expected_payments(s, recorded, n1).skip(1)
            == expected_payments(s, recorded, n2).skip(1),
        s.owner_pledge_cents > recorded ==> {
            let p1 = expected_payments(s, recorded, n1)[0];
            let p2 = expected_payments(s, recorded, n2)[0];
            &&& p1.amount_cents == p2.amount_cents
            &&& p1.contributor_id == p2.contributor_id
            &&& p1.date_secs == n1
            &&& p2.date_secs == n2
            &&& p1.id == payment_id_spec(n1, s.owner_id)
            &&& p2.id == payment_id_spec(n2, s.owner_id)
        },
{
    let from_txns = s.txns.map_values(|t: SpecTransaction| txn_payment(t));
    if s.owner_pledge_cents > recorded {
        assert(expected_payments(s, recorded, n1).skip(1) =~= from_txns);
        assert(expected_payments(s, recorded, n2).skip(1) =~= from_txns);
    }
}

/// Law: when the pledge exceeds the recorded sum, the engine emits exactly
/// one owner-remainder payment, of amount pledge minus recorded, at the head;
/// when it does not, it emits none, and every payment row derives from a
/// transaction.
pub proof fn lemma_owner_remainder(s: SpecSnapshot, recorded: int, now: int)
    ensures
        s.owner_pledge_cents > recorded ==> {
            let ps = expected_payments(s, recorded, now);
            &&& ps.len() == s.txns.len() + 1
            &&& ps[0] == owner_remainder_payment(s, recorded, now)
            &&& ps[0].amount_cents == s.owner_pledge_cents - recorded
            &&& ps[0].contributor_id == s.owner_id
            &&& forall|i: int| 1 <= i < ps.len() ==> ps[i] == txn_payment(s.txns[i - 1])
        },
        s.owner_pledge_cents <= recorded ==> {
            let ps = expected_payments(s, recorded, now);
            &&& ps.len() == s.txns.len()
            &&& forall|i: int| 0 <= i < ps.len() ==> ps[i] == txn_payment(s.txns[i])
        },
{
}

/// Law: the owner's contributor identifier always appears in the emitted
/// contributor set, even when the contributor map lacks it.
pub proof fn lemma_owner_contributor_present(s: SpecSnapshot)
    ensures
        expected_contributors(s).len() >= 1,
        expected_contributors(s)[0].contributor_id == s.owner_id,
        exists|i: int|
            0 <= i < expected_contributors(s).len() && expected_contributors(
                s,
            )[i].contributor_id == s.owner_id,
{
    assert(expected_contributors(s)[0].contributor_id == s.owner_id);
}

/// Computes the rows to upsert for one run dated at the current instant:
/// [`expected_contributors`] for the snapshot, and [`expected_payments`] for
/// some run instant (the wall clock's value is not pinned by any contract).
pub fn reconcile_now(s: &Snapshot, recorded_cents: i64) -> (r: (
    Vec<ContributorRecord>,
    Vec<PaymentRecord>,
))
    requires
        s.owner_pledge_cents - recorded_cents <= i64::MAX,
    ensures
        contributor_views(r.0@) == expected_contributors(s@),
        exists|now: int|
            payment_views(r.1@) == expected_payments(s@, recorded_cents as int, now),
{
    let now_secs = now_timestamp();
    let r = reconcile(s, recorded_cents, now_secs);
    proof {
        assert(payment_views(r.1@) == expected_payments(
            s@,
            recorded_cents as int,
            now_secs as int,
        ));
    }
    r
}

} // verus!
