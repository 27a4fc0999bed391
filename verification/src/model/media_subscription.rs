//! Cached subscription facts: who bought access to which offer.

use vstd::prelude::*;

use crate::model::{find_first, lemma_find_first_hit, lemma_find_first_none, lemma_find_first_some,
    Db};
use crate::Error;

verus! {

/// Column names of the subscription table in the persistent schema.
#[derive(Debug)]
pub enum MediaSubscriptionIden {
    Table,
    MediaSubscriptionId,
    BuyerUserId,
    OfferId,
    ShopId,
    CurrentPeriodStart,
    CurrentPeriodEnd,
    SubscriptionStatus,
    PayedAt,
    PayedUntil,
    CreatedAt,
    UpdatedAt,
    StripeSubscriptionId,
    CanceledAt,
    CancelAt,
}

impl MediaSubscriptionIden {
    /// The snake_case name used by storage adapters.
    pub fn sql_name(&self) -> (r: String)
        ensures
            self is Table ==> r@ == "media_subscriptions"@,
            self is MediaSubscriptionId ==> r@ == "media_subscription_id"@,
            self is BuyerUserId ==> r@ == "buyer_user_id"@,
            self is OfferId ==> r@ == "offer_id"@,
            self is ShopId ==> r@ == "shop_id"@,
            self is CurrentPeriodStart ==> r@ == "current_period_start"@,
            self is CurrentPeriodEnd ==> r@ == "current_period_end"@,
            self is SubscriptionStatus ==> r@ == "subscription_status"@,
            self is PayedAt ==> r@ == "payed_at"@,
            self is PayedUntil ==> r@ == "payed_until"@,
            self is CreatedAt ==> r@ == "created_at"@,
            self is UpdatedAt ==> r@ == "updated_at"@,
            self is StripeSubscriptionId ==> r@ == "stripe_subscription_id"@,
            self is CanceledAt ==> r@ == "canceled_at"@,
            self is CancelAt ==> r@ == "cancel_at"@,
    {
        match self {
            MediaSubscriptionIden::Table => "media_subscriptions".to_owned(),
            MediaSubscriptionIden::MediaSubscriptionId => "media_subscription_id".to_owned(),
            MediaSubscriptionIden::BuyerUserId => "buyer_user_id".to_owned(),
            MediaSubscriptionIden::OfferId => "offer_id".to_owned(),
            MediaSubscriptionIden::ShopId => "shop_id".to_owned(),
            MediaSubscriptionIden::CurrentPeriodStart => "current_period_start".to_owned(),
            MediaSubscriptionIden::CurrentPeriodEnd => "current_period_end".to_owned(),
            MediaSubscriptionIden::SubscriptionStatus => "subscription_status".to_owned(),
            MediaSubscriptionIden::PayedAt => "payed_at".to_owned(),
            MediaSubscriptionIden::PayedUntil => "payed_until".to_owned(),
            MediaSubscriptionIden::CreatedAt => "created_at".to_owned(),
            MediaSubscriptionIden::UpdatedAt => "updated_at".to_owned(),
            MediaSubscriptionIden::StripeSubscriptionId => "stripe_subscription_id".to_owned(),
            MediaSubscriptionIden::CanceledAt => "canceled_at".to_owned(),
            MediaSubscriptionIden::CancelAt => "cancel_at".to_owned(),
        }
    }
}

/// A locally cached subscription: buyer, offer, shop, period window,
/// status and cancellation markers. Timestamps are UNIX seconds.
#[derive(Debug)]
pub struct MediaSubscription {
    pub media_subscription_id: u128,
    pub buyer_user_id: String,
    pub offer_id: u128,
    pub shop_id: u128,
    pub current_period_start: i64,
    pub current_period_end: i64,
    pub subscription_status: String,
    pub payed_at: i64,
    pub payed_until: i64,
    pub created_at: i64,
    pub updated_at: i64,
    pub stripe_subscription_id: Option<String>,
    pub canceled_at: Option<i64>,
    pub cancel_at: Option<i64>,
}

/// Abstract view of a subscription fact.
#[verifier::ext_equal]
pub struct MediaSubscriptionV {
    pub media_subscription_id: u128,
    pub buyer_user_id: Seq<char>,
    pub offer_id: u128,
    pub shop_id: u128,
    pub current_period_start: int,
    pub current_period_end: int,
    pub subscription_status: Seq<char>,
    pub payed_at: int,
    pub payed_until: int,
    pub created_at: int,
    pub updated_at: int,
    pub stripe_subscription_id: Option<Seq<char>>,
    pub canceled_at: Option<int>,
    pub cancel_at: Option<int>,
}

impl View for MediaSubscription {
    type V = MediaSubscriptionV;

    open spec fn view(&self) -> MediaSubscriptionV {
        MediaSubscriptionV {
            media_subscription_id: self.media_subscription_id,
            buyer_user_id: self.buyer_user_id@,
            offer_id: self.offer_id,
            shop_id: self.shop_id,
            current_period_start: self.current_period_start as int,
            current_period_end: self.current_period_end as int,
            subscription_status: self.subscription_status@,
            payed_at: self.payed_at as int,
            payed_until: self.payed_until as int,
            created_at: self.created_at as int,
            updated_at: self.updated_at as int,
            stripe_subscription_id: match &self.stripe_subscription_id {
                Some(s) => Some(s@),
                None => None,
            },
            canceled_at: match self.canceled_at {
                Some(t) => Some(t as int),
                None => None,
            },
            cancel_at: match self.cancel_at {
                Some(t) => Some(t as int),
                None => None,
            },
        }
    }
}

impl DeepView for MediaSubscription {
    type V = MediaSubscriptionV;

    open spec fn deep_view(&self) -> MediaSubscriptionV {
        self.view()
    }
}

impl Clone for MediaSubscription {
    /// A clone preserves the view.
    fn clone(&self) -> (r: Self)
        ensures
            r@ == self@,
    {
        MediaSubscription {
            media_subscription_id: self.media_subscription_id,
            buyer_user_id: self.buyer_user_id.clone(),
            offer_id: self.offer_id,
            shop_id: self.shop_id,
            current_period_start: self.current_period_start,
            current_period_end: self.current_period_end,
            subscription_status: self.subscription_status.clone(),
            payed_at: self.payed_at,
            payed_until: self.payed_until,
            created_at: self.created_at,
            updated_at: self.updated_at,
            stripe_subscription_id: match &self.stripe_subscription_id {
                Some(s) => Some(s.clone()),
                None => None,
            },
            canceled_at: self.canceled_at,
            cancel_at: self.cancel_at,
        }
    }
}

/// The subscription with `media_subscription_id`, if any.
pub open spec fn find_subscription(s: Seq<MediaSubscriptionV>, id: u128) -> Option<
    MediaSubscriptionV,
> {
    find_first(s, |m: MediaSubscriptionV| m.media_subscription_id == id)
}

/// The subscription of `(buyer_user_id, offer_id)`, if any.
pub open spec fn find_subscription_by_buyer_offer(
    s: Seq<MediaSubscriptionV>,
    buyer_user_id: Seq<char>,
    offer_id: u128,
) -> Option<MediaSubscriptionV> {
    find_first(
        s,
        |m: MediaSubscriptionV| m.buyer_user_id == buyer_user_id && m.offer_id == offer_id,
    )
}

/// Identities and `(buyer, offer)` pairs are unique.
pub open spec fn subscriptions_wf(s: Seq<MediaSubscriptionV>) -> bool {
    &&& forall|i: int, j: int|
        0 <= i < j < s.len() ==> s[i].media_subscription_id != s[j].media_subscription_id
    &&& forall|i: int, j: int|
        0 <= i < j < s.len() ==> !(s[i].buyer_user_id == s[j].buyer_user_id && s[i].offer_id
            == s[j].offer_id)
}


/// A replayed fact over an existing row: every event-carried column from
/// `v`, with the row's original bookkeeping timestamps kept.
pub open spec fn put_columns(v: MediaSubscriptionV, pre: MediaSubscriptionV) -> MediaSubscriptionV {
    MediaSubscriptionV { created_at: pre.created_at, updated_at: pre.updated_at, ..v }
}

/// A freshly inserted fact: every event-carried column from `v`, with both
/// bookkeeping timestamps set to `now`.
pub open spec fn inserted_row(v: MediaSubscriptionV, now: int) -> MediaSubscriptionV {
    MediaSubscriptionV { created_at: now, updated_at: now, ..v }
}

/// The table after an upsert keyed by subscription identity: a write-through
/// replace of the matching fact, or an insert.
pub open spec fn upserted_subscriptions(
    pre: Seq<MediaSubscriptionV>,
    v: MediaSubscriptionV,
    now: int,
) -> Seq<MediaSubscriptionV> {
    if find_subscription(pre, v.media_subscription_id) is Some {
        pre.map_values(
            |m: MediaSubscriptionV|
                if m.media_subscription_id == v.media_subscription_id {
                    put_columns(v, m)
                } else {
                    m
                },
        )
    } else {
        pre.push(inserted_row(v, now))
    }
}

/// The table after an upsert keyed by `(buyer, offer)`.
pub open spec fn put_subscriptions(
    pre: Seq<MediaSubscriptionV>,
    v: MediaSubscriptionV,
    now: int,
) -> Seq<MediaSubscriptionV> {
    if find_subscription_by_buyer_offer(pre, v.buyer_user_id, v.offer_id) is Some {
        pre.map_values(
            |m: MediaSubscriptionV|
                if m.buyer_user_id == v.buyer_user_id && m.offer_id == v.offer_id {
                    put_columns(v, m)
                } else {
                    m
                },
        )
    } else {
        pre.push(inserted_row(v, now))
    }
}

/// A row other than `v`'s own that already holds `v`'s `(buyer, offer)`
/// pair — a key-constraint violation for an upsert by identity.
pub open spec fn conflicting_pair(pre: Seq<MediaSubscriptionV>, v: MediaSubscriptionV) -> bool {
    exists|j: int|
        0 <= j < pre.len() && (#[trigger] pre[j]).media_subscription_id
            != v.media_subscription_id && pre[j].buyer_user_id == v.buyer_user_id && pre[j].offer_id
            == v.offer_id
}

/// A row other than the one holding `v`'s `(buyer, offer)` pair that
/// already holds `v`'s identity — a key-constraint violation for an upsert
/// by pair.
pub open spec fn conflicting_id(pre: Seq<MediaSubscriptionV>, v: MediaSubscriptionV) -> bool {
    exists|j: int|
        0 <= j < pre.len() && (#[trigger] pre[j]).media_subscription_id == v.media_subscription_id
            && !(pre[j].buyer_user_id == v.buyer_user_id && pre[j].offer_id == v.offer_id)
}

/// LAW (event idempotence): replaying the same upsert twice yields the
/// same table as replaying it once, whatever the clock read at either
/// replay.
pub proof fn lemma_upsert_idempotent(
    pre: Seq<MediaSubscriptionV>,
    v: MediaSubscriptionV,
    now1: int,
    now2: int,
)
    ensures
        upserted_subscriptions(upserted_subscriptions(pre, v, now1), v, now2)
            == upserted_subscriptions(pre, v, now1),
{
    let once = upserted_subscriptions(pre, v, now1);
    let id = v.media_subscription_id;
    match find_subscription(pre, id) {
        Some(ex) => {
            crate::model::lemma_find_first_sound(
                pre,
                |m: MediaSubscriptionV| m.media_subscription_id == id,
            );
            let k = choose|k: int| 0 <= k < pre.len() && pre[k] == ex;
            assert(once[k].media_subscription_id == id);
            crate::model::lemma_find_first_some(
                once,
                |m: MediaSubscriptionV| m.media_subscription_id == id,
                k,
            );
            assert(upserted_subscriptions(once, v, now2) =~~= once) by {
                assert forall|j: int| 0 <= j < once.len() implies (if once[j].media_subscription_id
                    == id {
                    put_columns(v, once[j])
                } else {
                    once[j]
                }) =~~= once[j] by {
                    if once[j].media_subscription_id == id {
                        assert(once[j] == put_columns(v, pre[j]));
                    }
                }
            }
        },
        None => {
            crate::model::lemma_find_first_none_converse(
                pre,
                |m: MediaSubscriptionV| m.media_subscription_id == id,
            );
            assert(once[pre.len() as int].media_subscription_id == id);
            crate::model::lemma_find_first_some(
                once,
                |m: MediaSubscriptionV| m.media_subscription_id == id,
                pre.len() as int,
            );
            assert(upserted_subscriptions(once, v, now2) =~~= once) by {
                assert forall|j: int| 0 <= j < once.len() implies (if once[j].media_subscription_id
                    == id {
                    put_columns(v, once[j])
                } else {
                    once[j]
                }) =~~= once[j] by {
                    if j < pre.len() {
                        assert(once[j] == pre[j]);
                        assert(pre[j].media_subscription_id != id);
                    } else {
                        assert(once[j] == inserted_row(v, now1));
                        assert(put_columns(v, inserted_row(v, now1)) =~~= inserted_row(v, now1));
                    }
                }
            }
        },
    }
}

impl MediaSubscription {
    /// Write-through replace of the fact with this subscription's
    /// identity, or an insert with `now` as both bookkeeping timestamps.
    ///
    /// Fails with `Internal` exactly when a different fact already holds
    /// the subscription's `(buyer, offer)` pair (a key-constraint
    /// violation); the state is then unchanged.
    pub fn upsert(db: &mut Db, sub: &MediaSubscription, now: i64) -> (r: Result<
        MediaSubscription,
        Error,
    >)
        requires
            old(db).wf(),
        ensures
            final(db).wf(),
            final(db)@.medias == old(db)@.medias,
            final(db)@.media_offers == old(db)@.media_offers,
            final(db)@.quotas == old(db)@.quotas,
            final(db)@.sub_shops == old(db)@.sub_shops,
            final(db)@.sub_offers == old(db)@.sub_offers,
            match r {
                Ok(m) => {
                    &&& !conflicting_pair(old(db)@.media_subscriptions, sub@)
                    &&& final(db)@.media_subscriptions == upserted_subscriptions(
                        old(db)@.media_subscriptions,
                        sub@,
                        now as int,
                    )
                    &&& m@ == (match find_subscription(
                        old(db)@.media_subscriptions,
                        sub@.media_subscription_id,
                    ) {
                        Some(ex) => put_columns(sub@, ex),
                        None => inserted_row(sub@, now as int),
                    })
                },
                Err(e) => {
                    &&& e == Error::Internal
                    &&& conflicting_pair(old(db)@.media_subscriptions, sub@)
                    &&& final(db)@.media_subscriptions == old(db)@.media_subscriptions
                },
            },
    {
        // A different row holding the same (buyer, offer) pair violates
        // the pair constraint.
        let n = db.media_subscriptions.len();
        for i in 0..n
            invariant
                n == db.media_subscriptions.len(),
                *db == *old(db),
                old(db).wf(),
                forall|j: int|
                    0 <= j < i ==> !((#[trigger] db@.media_subscriptions[j]).media_subscription_id
                        != sub@.media_subscription_id && db@.media_subscriptions[j].buyer_user_id
                        == sub@.buyer_user_id && db@.media_subscriptions[j].offer_id
                        == sub@.offer_id),
        {
            proof {
                assert(db@.media_subscriptions[i as int] == db.media_subscriptions@[i as int]@);
            }
            if db.media_subscriptions[i].media_subscription_id != sub.media_subscription_id
                && db.media_subscriptions[i].buyer_user_id == sub.buyer_user_id
                && db.media_subscriptions[i].offer_id == sub.offer_id {
                return Err(Error::Internal);
            }
        }
        let ghost pre = db@.media_subscriptions;
        let n2 = db.media_subscriptions.len();
        for i in 0..n2
            invariant
                n2 == db.media_subscriptions.len(),
                *db == *old(db),
                pre == db@.media_subscriptions,
                old(db).wf(),
                !conflicting_pair(pre, sub@),
                forall|j: int|
                    0 <= j < i ==> db@.media_subscriptions[j].media_subscription_id
                        != sub@.media_subscription_id,
        {
            proof {
                assert(db@.media_subscriptions[i as int] == db.media_subscriptions@[i as int]@);
            }
            if db.media_subscriptions[i].media_subscription_id == sub.media_subscription_id {
                proof {
                    lemma_find_first_hit(
                        pre,
                        |m: MediaSubscriptionV| m.media_subscription_id
                            == sub@.media_subscription_id,
                        i as int,
                    );
                }
                let mut m = sub.clone();
                m.created_at = db.media_subscriptions[i].created_at;
                m.updated_at = db.media_subscriptions[i].updated_at;
                let out = m.clone();
                db.media_subscriptions.remove(i);
                db.media_subscriptions.insert(i, m);
                proof {
                    assert(out@ =~~= put_columns(sub@, pre[i as int]));
                    assert forall|j: int|
                        0 <= j < pre.len() && j != i as int implies pre[j].media_subscription_id
                        != sub@.media_subscription_id by {
                        if j > i as int {
                            assert(pre[i as int].media_subscription_id
                                != pre[j].media_subscription_id);
                        }
                    }
                    assert(db@.media_subscriptions =~~= upserted_subscriptions(
                        pre,
                        sub@,
                        now as int,
                    ));
                    lemma_upsert_keeps_wf(pre, sub@, now as int);
                }
                return Ok(out);
            }
        }
        proof {
            lemma_find_first_none(
                pre,
                |m: MediaSubscriptionV| m.media_subscription_id == sub@.media_subscription_id,
            );
        }
        let mut m = sub.clone();
        m.created_at = now;
        m.updated_at = now;
        let out = m.clone();
        db.media_subscriptions.push(m);
        proof {
            assert(out@ =~~= inserted_row(sub@, now as int));
            assert(db@.media_subscriptions =~~= pre.push(inserted_row(sub@, now as int)));
            lemma_upsert_keeps_wf(pre, sub@, now as int);
        }
        Ok(out)
    }

    /// Removes the fact with `media_subscription_id` and returns it.
    ///
    /// Fails with `NotFound` exactly when no such fact is cached; the
    /// state is then unchanged.
    pub fn delete(db: &mut Db, media_subscription_id: u128) -> (r: Result<MediaSubscription, Error>)
        requires
            old(db).wf(),
        ensures
            final(db).wf(),
            final(db)@.medias == old(db)@.medias,
            final(db)@.media_offers == old(db)@.media_offers,
            final(db)@.quotas == old(db)@.quotas,
            final(db)@.sub_shops == old(db)@.sub_shops,
            final(db)@.sub_offers == old(db)@.sub_offers,
            match r {
                Ok(m) => {
                    &&& find_subscription(old(db)@.media_subscriptions, media_subscription_id)
                        == Some(m@)
                    &&& final(db)@.media_subscriptions == old(db)@.media_subscriptions.filter(
                        |m: MediaSubscriptionV| m.media_subscription_id != media_subscription_id,
                    )
                },
                Err(e) => {
                    &&& e == Error::NotFound
                    &&& find_subscription(old(db)@.media_subscriptions, media_subscription_id)
                        is None
                    &&& final(db)@.media_subscriptions == old(db)@.media_subscriptions
                },
            },
    {
        let found = match Self::get_by_id(db, media_subscription_id) {
            Some(m) => m,
            None => {
                return Err(Error::NotFound);
            },
        };
        let mut out: Vec<MediaSubscription> = Vec::new();
        let n = db.media_subscriptions.len();
        for i in 0..n
            invariant
                n == db.media_subscriptions.len(),
                *db == *old(db),
                old(db).wf(),
                out.deep_view() == db@.media_subscriptions.take(i as int).filter(
                    |m: MediaSubscriptionV| m.media_subscription_id != media_subscription_id,
                ),
        {
            proof {
                reveal(Seq::filter);
                assert(db@.media_subscriptions[i as int] == db.media_subscriptions@[i as int]@);
                assert(db@.media_subscriptions.take(i + 1).drop_last()
                    =~= db@.media_subscriptions.take(i as int));
                assert(db@.media_subscriptions.take(i + 1).last()
                    == db@.media_subscriptions[i as int]);
            }
            if !(db.media_subscriptions[i].media_subscription_id == media_subscription_id) {
                let ghost preout = out.deep_view();
                out.push(db.media_subscriptions[i].clone());
                proof {
                    assert(out.deep_view() =~= preout.push(db@.media_subscriptions[i as int]));
                }
            }
        }
        proof {
            assert(db@.media_subscriptions.take(n as int) =~= db@.media_subscriptions);
        }
        db.media_subscriptions = out;
        proof {
            let keep = |m: MediaSubscriptionV| m.media_subscription_id != media_subscription_id;
            let f = old(db)@.media_subscriptions.filter(keep);
            assert forall|i: int, j: int|
                0 <= i < j < f.len() implies f[i].media_subscription_id
                != f[j].media_subscription_id by {
                crate::model::lemma_filter_pairwise(
                    old(db)@.media_subscriptions,
                    keep,
                    |a: MediaSubscriptionV, b: MediaSubscriptionV| a.media_subscription_id
                        != b.media_subscription_id,
                    i,
                    j,
                );
            }
            assert forall|i: int, j: int|
                0 <= i < j < f.len() implies !(f[i].buyer_user_id == f[j].buyer_user_id
                && f[i].offer_id == f[j].offer_id) by {
                crate::model::lemma_filter_pairwise(
                    old(db)@.media_subscriptions,
                    keep,
                    |a: MediaSubscriptionV, b: MediaSubscriptionV| !(a.buyer_user_id
                        == b.buyer_user_id && a.offer_id == b.offer_id),
                    i,
                    j,
                );
            }
        }
        Ok(found)
    }

    /// Write-through replace of the fact holding this subscription's
    /// `(buyer, offer)` pair, or an insert with `now` as both bookkeeping
    /// timestamps.
    ///
    /// Fails with `Internal` exactly when a fact outside that pair already
    /// holds the subscription's identity (a key-constraint violation); the
    /// state is then unchanged.
    pub fn put(db: &mut Db, sub: &MediaSubscription, now: i64) -> (r: Result<
        MediaSubscription,
        Error,
    >)
        requires
            old(db).wf(),
        ensures
            final(db).wf(),
            final(db)@.medias == old(db)@.medias,
            final(db)@.media_offers == old(db)@.media_offers,
            final(db)@.quotas == old(db)@.quotas,
            final(db)@.sub_shops == old(db)@.sub_shops,
            final(db)@.sub_offers == old(db)@.sub_offers,
            match r {
                Ok(m) => {
                    &&& !conflicting_id(old(db)@.media_subscriptions, sub@)
                    &&& final(db)@.media_subscriptions == put_subscriptions(
                        old(db)@.media_subscriptions,
                        sub@,
                        now as int,
                    )
                    &&& m@ == (match find_subscription_by_buyer_offer(
                        old(db)@.media_subscriptions,
                        sub@.buyer_user_id,
                        sub@.offer_id,
                    ) {
                        Some(ex) => put_columns(sub@, ex),
                        None => inserted_row(sub@, now as int),
                    })
                },
                Err(e) => {
                    &&& e == Error::Internal
                    &&& conflicting_id(old(db)@.media_subscriptions, sub@)
                    &&& final(db)@.media_subscriptions == old(db)@.media_subscriptions
                },
            },
    {
        // A row outside the pair holding the same identity violates the
        // identity constraint.
        let n = db.media_subscriptions.len();
        for i in 0..n
            invariant
                n == db.media_subscriptions.len(),
                *db == *old(db),
                old(db).wf(),
                forall|j: int|
                    0 <= j < i ==> !((#[trigger] db@.media_subscriptions[j]).media_subscription_id
                        == sub@.media_subscription_id && !(db@.media_subscriptions[j].buyer_user_id
                        == sub@.buyer_user_id && db@.media_subscriptions[j].offer_id
                        == sub@.offer_id)),
        {
            proof {
                assert(db@.media_subscriptions[i as int] == db.media_subscriptions@[i as int]@);
            }
            if db.media_subscriptions[i].media_subscription_id == sub.media_subscription_id && !(
            db.media_subscriptions[i].buyer_user_id == sub.buyer_user_id
                && db.media_subscriptions[i].offer_id == sub.offer_id) {
                return Err(Error::Internal);
            }
        }
        let ghost pre = db@.media_subscriptions;
        let n2 = db.media_subscriptions.len();
        for i in 0..n2
            invariant
                n2 == db.media_subscriptions.len(),
                *db == *old(db),
                pre == db@.media_subscriptions,
                old(db).wf(),
                !conflicting_id(pre, sub@),
                forall|j: int|
                    0 <= j < i ==> !((#[trigger] db@.media_subscriptions[j]).buyer_user_id
                        == sub@.buyer_user_id && db@.media_subscriptions[j].offer_id
                        == sub@.offer_id),
        {
            proof {
                assert(db@.media_subscriptions[i as int] == db.media_subscriptions@[i as int]@);
            }
            if db.media_subscriptions[i].buyer_user_id == sub.buyer_user_id
                && db.media_subscriptions[i].offer_id == sub.offer_id {
                proof {
                    lemma_find_first_hit(
                        pre,
                        |m: MediaSubscriptionV| m.buyer_user_id == sub@.buyer_user_id && m.offer_id
                            == sub@.offer_id,
                        i as int,
                    );
                }
                let mut m = sub.clone();
                m.created_at = db.media_subscriptions[i].created_at;
                m.updated_at = db.media_subscriptions[i].updated_at;
                let out = m.clone();
                db.media_subscriptions.remove(i);
                db.media_subscriptions.insert(i, m);
                proof {
                    assert(out@ =~~= put_columns(sub@, pre[i as int]));
                    assert forall|j: int|
                        0 <= j < pre.len() && j != i as int implies !(pre[j].buyer_user_id
                        == sub@.buyer_user_id && pre[j].offer_id == sub@.offer_id) by {
                        if j > i as int {
                            assert(!(pre[i as int].buyer_user_id == pre[j].buyer_user_id
                                && pre[i as int].offer_id == pre[j].offer_id));
                        }
                    }
                    assert(db@.media_subscriptions =~~= put_subscriptions(pre, sub@, now as int));
                    lemma_put_keeps_wf(pre, sub@, now as int);
                }
                return Ok(out);
            }
        }
        proof {
            lemma_find_first_none(
                pre,
                |m: MediaSubscriptionV| m.buyer_user_id == sub@.buyer_user_id && m.offer_id
                    == sub@.offer_id,
            );
        }
        let mut m = sub.clone();
        m.created_at = now;
        m.updated_at = now;
        let out = m.clone();
        db.media_subscriptions.push(m);
        proof {
            assert(out@ =~~= inserted_row(sub@, now as int));
            assert(db@.media_subscriptions =~~= pre.push(inserted_row(sub@, now as int)));
            lemma_put_keeps_wf(pre, sub@, now as int);
        }
        Ok(out)
    }

    /// Whether a cached fact counts for reads: its status is `active` or
    /// `trialing`.
    pub open spec fn status_live(status: Seq<char>) -> bool {
        status == "active"@ || status == "trialing"@
    }

    /// Reads the first live fact of `buyer_user_id`, optionally pinned to
    /// an identity and an offer.
    pub fn get(
        db: &Db,
        buyer_user_id: &String,
        media_subscription_id: Option<u128>,
        offer_id: Option<u128>,
    ) -> (r: Option<MediaSubscription>)
        ensures
            r.deep_view() == find_first(
                db@.media_subscriptions,
                |m: MediaSubscriptionV| query_match(
                    m,
                    buyer_user_id@,
                    media_subscription_id,
                    offer_id,
                ),
            ),
    {
        let active = "active".to_owned();
        let trialing = "trialing".to_owned();
        let n = db.media_subscriptions.len();
        for i in 0..n
            invariant
                n == db.media_subscriptions.len(),
                active@ == "active"@,
                trialing@ == "trialing"@,
                forall|j: int|
                    0 <= j < i ==> !query_match(
                        #[trigger] db@.media_subscriptions[j],
                        buyer_user_id@,
                        media_subscription_id,
                        offer_id,
                    ),
        {
            proof {
                assert(db@.media_subscriptions[i as int] == db.media_subscriptions@[i as int]@);
            }
            let m = &db.media_subscriptions[i];
            let id_ok = match media_subscription_id {
                Some(id) => m.media_subscription_id == id,
                None => true,
            };
            let offer_ok = match offer_id {
                Some(o) => m.offer_id == o,
                None => true,
            };
            if m.buyer_user_id == *buyer_user_id && (m.subscription_status == active
                || m.subscription_status == trialing) && id_ok && offer_ok {
                proof {
                    lemma_find_first_hit(
                        db@.media_subscriptions,
                        |m: MediaSubscriptionV| query_match(
                            m,
                            buyer_user_id@,
                            media_subscription_id,
                            offer_id,
                        ),
                        i as int,
                    );
                }
                return Some(db.media_subscriptions[i].clone());
            }
        }
        proof {
            lemma_find_first_none(
                db@.media_subscriptions,
                |m: MediaSubscriptionV| query_match(
                    m,
                    buyer_user_id@,
                    media_subscription_id,
                    offer_id,
                ),
            );
        }
        None
    }

    /// Reads a page of the buyer's live facts, optionally pinned to a shop
    /// and to those currently paid for, with the total count of matches.
    pub fn list(
        db: &Db,
        buyer_user_id: &String,
        shop_id: Option<u128>,
        is_accessible: Option<bool>,
        limit: u64,
        offset: u64,
        now: i64,
    ) -> (r: (Vec<MediaSubscription>, u64))
        ensures
            ({
                let matches = db@.media_subscriptions.filter(
                    |m: MediaSubscriptionV| list_match(
                        m,
                        buyer_user_id@,
                        shop_id,
                        is_accessible,
                        now as int,
                    ),
                );
                &&& r.1 == matches.len()
                &&& r.0.deep_view() == page(matches, offset as int, limit as int)
            }),
    {
        let active = "active".to_owned();
        let trialing = "trialing".to_owned();
        let mut matched: Vec<MediaSubscription> = Vec::new();
        let n = db.media_subscriptions.len();
        for i in 0..n
            invariant
                n == db.media_subscriptions.len(),
                active@ == "active"@,
                trialing@ == "trialing"@,
                matched.deep_view() == db@.media_subscriptions.take(i as int).filter(
                    |m: MediaSubscriptionV| list_match(
                        m,
                        buyer_user_id@,
                        shop_id,
                        is_accessible,
                        now as int,
                    ),
                ),
        {
            proof {
                reveal(Seq::filter);
                assert(db@.media_subscriptions[i as int] == db.media_subscriptions@[i as int]@);
                assert(db@.media_subscriptions.take(i + 1).drop_last()
                    =~= db@.media_subscriptions.take(i as int));
                assert(db@.media_subscriptions.take(i + 1).last()
                    == db@.media_subscriptions[i as int]);
            }
            let m = &db.media_subscriptions[i];
            let shop_ok = match shop_id {
                Some(s) => m.shop_id == s,
                None => true,
            };
            let acc_ok = match is_accessible {
                Some(true) => m.payed_until >= now,
                _ => true,
            };
            if m.buyer_user_id == *buyer_user_id && (m.subscription_status == active
                || m.subscription_status == trialing) && shop_ok && acc_ok {
                let ghost preout = matched.deep_view();
                matched.push(db.media_subscriptions[i].clone());
                proof {
                    assert(matched.deep_view() =~= preout.push(db@.media_subscriptions[i as int]));
                }
            }
        }
        proof {
            assert(db@.media_subscriptions.take(n as int) =~= db@.media_subscriptions);
        }
        let count = matched.len() as u64;
        let page_out = page_of_subscriptions(&matched, offset, limit);
        (page_out, count)
    }

    /// Reads the fact with `media_subscription_id`.
    fn get_by_id(db: &Db, media_subscription_id: u128) -> (r: Option<MediaSubscription>)
        ensures
            r.deep_view() == find_subscription(db@.media_subscriptions, media_subscription_id),
    {
        let n = db.media_subscriptions.len();
        for i in 0..n
            invariant
                n == db.media_subscriptions.len(),
                forall|j: int|
                    0 <= j < i ==> db@.media_subscriptions[j].media_subscription_id
                        != media_subscription_id,
        {
            proof {
                assert(db@.media_subscriptions[i as int] == db.media_subscriptions@[i as int]@);
            }
            if db.media_subscriptions[i].media_subscription_id == media_subscription_id {
                proof {
                    lemma_find_first_hit(
                        db@.media_subscriptions,
                        |m: MediaSubscriptionV| m.media_subscription_id == media_subscription_id,
                        i as int,
                    );
                }
                return Some(db.media_subscriptions[i].clone());
            }
        }
        proof {
            lemma_find_first_none(
                db@.media_subscriptions,
                |m: MediaSubscriptionV| m.media_subscription_id == media_subscription_id,
            );
        }
        None
    }
}

/// Whether a fact matches a read of `buyer_user_id`, optionally pinned to
/// an identity and an offer: the fact is the buyer\'s and live.
pub open spec fn query_match(
    m: MediaSubscriptionV,
    buyer_user_id: Seq<char>,
    media_subscription_id: Option<u128>,
    offer_id: Option<u128>,
) -> bool {
    &&& m.buyer_user_id == buyer_user_id
    &&& MediaSubscription::status_live(m.subscription_status)
    &&& media_subscription_id matches Some(id) ==> m.media_subscription_id == id
    &&& offer_id matches Some(o) ==> m.offer_id == o
}

/// Whether a fact matches a listing of `buyer_user_id`, optionally pinned
/// to a shop and to facts paid up at `now`.
pub open spec fn list_match(
    m: MediaSubscriptionV,
    buyer_user_id: Seq<char>,
    shop_id: Option<u128>,
    is_accessible: Option<bool>,
    now: int,
) -> bool {
    &&& m.buyer_user_id == buyer_user_id
    &&& MediaSubscription::status_live(m.subscription_status)
    &&& shop_id matches Some(s) ==> m.shop_id == s
    &&& is_accessible == Some(true) ==> m.payed_until >= now
}

/// The page of a sequence: up to `limit` elements starting at `offset`.
pub open spec fn page<T>(s: Seq<T>, offset: int, limit: int) -> Seq<T> {
    let start = if offset > s.len() {
        s.len() as int
    } else {
        offset
    };
    let end = if offset + limit > s.len() {
        s.len() as int
    } else {
        offset + limit
    };
    if end < start {
        Seq::empty()
    } else {
        s.subrange(start, end)
    }
}

/// Copies the requested page out of the matched facts.
fn page_of_subscriptions(matched: &Vec<MediaSubscription>, offset: u64, limit: u64) -> (r: Vec<
    MediaSubscription,
>)
    ensures
        r.deep_view() == page(matched.deep_view(), offset as int, limit as int),
{
    let n = matched.len();
    let start: usize = if offset > n as u64 {
        n
    } else {
        offset as usize
    };
    let end: usize = if limit > (n - start) as u64 {
        n
    } else {
        start + limit as usize
    };
    let mut out: Vec<MediaSubscription> = Vec::new();
    for k in start..end
        invariant
            start <= k <= end <= n,
            n == matched.len(),
            out.deep_view() == matched.deep_view().subrange(start as int, k as int),
    {
        proof {
            assert(matched.deep_view()[k as int] == matched@[k as int]@);
        }
        let ghost preout = out.deep_view();
        out.push(matched[k].clone());
        proof {
            assert(out.deep_view() =~= preout.push(matched.deep_view()[k as int]));
            assert(matched.deep_view().subrange(start as int, k + 1) =~= matched.deep_view().subrange(
                start as int,
                k as int,
            ).push(matched.deep_view()[k as int]));
        }
    }
    proof {
        assert(out.deep_view() =~= page(matched.deep_view(), offset as int, limit as int));
    }
    out
}

/// An upsert keyed by the pair keeps both key constraints.
proof fn lemma_put_keeps_wf(pre: Seq<MediaSubscriptionV>, v: MediaSubscriptionV, now: int)
    requires
        subscriptions_wf(pre),
        !conflicting_id(pre, v),
    ensures
        subscriptions_wf(put_subscriptions(pre, v, now)),
{
    let post = put_subscriptions(pre, v, now);
    match find_subscription_by_buyer_offer(pre, v.buyer_user_id, v.offer_id) {
        Some(_) => {
            assert forall|i: int, j: int|
                0 <= i < j < post.len() implies !(post[i].buyer_user_id == post[j].buyer_user_id
                && post[i].offer_id == post[j].offer_id) by {
                assert(!(pre[i].buyer_user_id == pre[j].buyer_user_id && pre[i].offer_id
                    == pre[j].offer_id));
            }
            assert forall|i: int, j: int|
                0 <= i < j < post.len() implies post[i].media_subscription_id
                != post[j].media_subscription_id by {
                assert(!(pre[i].buyer_user_id == pre[j].buyer_user_id && pre[i].offer_id
                    == pre[j].offer_id));
                if post[i].media_subscription_id == post[j].media_subscription_id {
                    if pre[i].buyer_user_id == v.buyer_user_id && pre[i].offer_id == v.offer_id {
                        assert(!conflicting_id(pre, v));
                        assert(false);
                    } else if pre[j].buyer_user_id == v.buyer_user_id && pre[j].offer_id
                        == v.offer_id {
                        assert(!conflicting_id(pre, v));
                        assert(false);
                    } else {
                        assert(pre[i].media_subscription_id != pre[j].media_subscription_id);
                    }
                }
            }
        },
        None => {
            crate::model::lemma_find_first_none_converse(
                pre,
                |m: MediaSubscriptionV| m.buyer_user_id == v.buyer_user_id && m.offer_id
                    == v.offer_id,
            );
            assert forall|i: int, j: int|
                0 <= i < j < post.len() implies !(post[i].buyer_user_id == post[j].buyer_user_id
                && post[i].offer_id == post[j].offer_id) by {
                if j == pre.len() {
                    assert(!(pre[i].buyer_user_id == v.buyer_user_id && pre[i].offer_id
                        == v.offer_id));
                }
            }
            assert forall|i: int, j: int|
                0 <= i < j < post.len() implies post[i].media_subscription_id
                != post[j].media_subscription_id by {
                if j == pre.len() {
                    if pre[i].media_subscription_id == v.media_subscription_id {
                        assert(!(pre[i].buyer_user_id == v.buyer_user_id && pre[i].offer_id
                            == v.offer_id));
                        assert(conflicting_id(pre, v));
                    }
                }
            }
        },
    }
}

/// An upsert keyed by identity keeps both key constraints.
proof fn lemma_upsert_keeps_wf(pre: Seq<MediaSubscriptionV>, v: MediaSubscriptionV, now: int)
    requires
        subscriptions_wf(pre),
        !conflicting_pair(pre, v),
    ensures
        subscriptions_wf(upserted_subscriptions(pre, v, now)),
{
    let post = upserted_subscriptions(pre, v, now);
    match find_subscription(pre, v.media_subscription_id) {
        Some(_) => {
            assert forall|i: int, j: int|
                0 <= i < j < post.len() implies post[i].media_subscription_id
                != post[j].media_subscription_id by {
                assert(pre[i].media_subscription_id != pre[j].media_subscription_id);
            }
            assert forall|i: int, j: int|
                0 <= i < j < post.len() implies !(post[i].buyer_user_id == post[j].buyer_user_id
                && post[i].offer_id == post[j].offer_id) by {
                assert(pre[i].media_subscription_id != pre[j].media_subscription_id);
                if post[i].buyer_user_id == post[j].buyer_user_id && post[i].offer_id
                    == post[j].offer_id {
                    if pre[i].media_subscription_id == v.media_subscription_id {
                        assert(pre[j].media_subscription_id != v.media_subscription_id);
                        assert(!conflicting_pair(pre, v));
                        assert(false);
                    } else if pre[j].media_subscription_id == v.media_subscription_id {
                        assert(!conflicting_pair(pre, v));
                        assert(false);
                    } else {
                        assert(!(pre[i].buyer_user_id == pre[j].buyer_user_id && pre[i].offer_id
                            == pre[j].offer_id));
                    }
                }
            }
        },
        None => {
            crate::model::lemma_find_first_none_converse(
                pre,
                |m: MediaSubscriptionV| m.media_subscription_id == v.media_subscription_id,
            );
            assert forall|i: int, j: int|
                0 <= i < j < post.len() implies post[i].media_subscription_id
                != post[j].media_subscription_id by {
                if j == pre.len() {
                    assert(pre[i].media_subscription_id != v.media_subscription_id);
                }
            }
            assert forall|i: int, j: int|
                0 <= i < j < post.len() implies !(post[i].buyer_user_id == post[j].buyer_user_id
                && post[i].offer_id == post[j].offer_id) by {
                if j == pre.len() {
                    assert(pre[i].media_subscription_id != v.media_subscription_id);
                    if pre[i].buyer_user_id == v.buyer_user_id && pre[i].offer_id == v.offer_id {
                        assert(conflicting_pair(pre, v));
                    }
                }
            }
        },
    }
}

} // verus!

