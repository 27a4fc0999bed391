//! Asset/offer associations carrying a display ordering.

use vstd::prelude::*;

use crate::model::{find_first, lemma_find_first_hit, lemma_find_first_none, lemma_find_first_some,
    Db};
use crate::Error;

verus! {

/// Column names of the association table in the persistent schema.
#[derive(Debug)]
pub enum MediaOfferIden {
    Table,
    MediaId,
    OfferId,
    UserId,
    Ordering,
}

impl MediaOfferIden {
    /// The snake_case name used by storage adapters.
    pub fn sql_name(&self) -> (r: String)
        ensures
            self is Table ==> r@ == "medias_offers"@,
            self is MediaId ==> r@ == "media_id"@,
            self is OfferId ==> r@ == "offer_id"@,
            self is UserId ==> r@ == "user_id"@,
            self is Ordering ==> r@ == "ordering"@,
    {
        match self {
            MediaOfferIden::Table => "medias_offers".to_owned(),
            MediaOfferIden::MediaId => "media_id".to_owned(),
            MediaOfferIden::OfferId => "offer_id".to_owned(),
            MediaOfferIden::UserId => "user_id".to_owned(),
            MediaOfferIden::Ordering => "ordering".to_owned(),
        }
    }
}

/// A many-to-many link between an asset and an offer.
#[derive(Debug)]
pub struct MediaOffer {
    pub media_id: u128,
    pub offer_id: u128,
    pub user_id: String,
    pub ordering: i64,
}

/// Abstract view of an association record.
#[verifier::ext_equal]
pub struct MediaOfferV {
    pub media_id: u128,
    pub offer_id: u128,
    pub user_id: Seq<char>,
    pub ordering: int,
}

impl View for MediaOffer {
    type V = MediaOfferV;

    open spec fn view(&self) -> MediaOfferV {
        MediaOfferV {
            media_id: self.media_id,
            offer_id: self.offer_id,
            user_id: self.user_id@,
            ordering: self.ordering as int,
        }
    }
}

impl DeepView for MediaOffer {
    type V = MediaOfferV;

    open spec fn deep_view(&self) -> MediaOfferV {
        self.view()
    }
}

/// The association with the composite key `(media_id, offer_id)`, if any.
pub open spec fn find_media_offer(s: Seq<MediaOfferV>, media_id: u128, offer_id: u128) -> Option<
    MediaOfferV,
> {
    find_first(s, |m: MediaOfferV| m.media_id == media_id && m.offer_id == offer_id)
}

/// Composite keys are unique; orderings fit the storage column.
pub open spec fn media_offers_wf(s: Seq<MediaOfferV>) -> bool {
    &&& forall|i: int, j: int|
        0 <= i < j < s.len() ==> !(s[i].media_id == s[j].media_id && s[i].offer_id
            == s[j].offer_id)
    &&& forall|i: int|
        0 <= i < s.len() ==> i64::MIN <= #[trigger] s[i].ordering <= i64::MAX
}

impl Clone for MediaOffer {
    /// A clone preserves the view.
    fn clone(&self) -> (r: Self)
        ensures
            r@ == self@,
    {
        MediaOffer {
            media_id: self.media_id,
            offer_id: self.offer_id,
            user_id: self.user_id.clone(),
            ordering: self.ordering,
        }
    }
}


/// Whether a row belongs to `offer_id` and is owned by `user_id`.
pub open spec fn in_offer_of_owner(m: MediaOfferV, offer_id: u128, user_id: Seq<char>) -> bool {
    m.offer_id == offer_id && m.user_id == user_id
}

/// The greatest ordering among the owner's rows of an offer, if any.
pub open spec fn max_ordering(s: Seq<MediaOfferV>, offer_id: u128, user_id: Seq<char>) -> Option<
    int,
>
    decreases s.len(),
{
    if s.len() == 0 {
        None
    } else {
        let rest = max_ordering(s.drop_last(), offer_id, user_id);
        if in_offer_of_owner(s.last(), offer_id, user_id) {
            match rest {
                None => Some(s.last().ordering),
                Some(v) => Some(if s.last().ordering > v {
                    s.last().ordering
                } else {
                    v
                }),
            }
        } else {
            rest
        }
    }
}

/// The highest ordering of the owner's rows of an offer, `0` when there
/// is none.
pub open spec fn highest_ordering_of(s: Seq<MediaOfferV>, offer_id: u128, user_id: Seq<char>) -> int {
    match max_ordering(s, offer_id, user_id) {
        None => 0,
        Some(v) => v,
    }
}

/// One row of the table after a reorder of the association
/// `(media_id, offer_id)` from `old_ord` to `new_ord`, restricted to rows
/// of the same offer owned by `user_id`: the target moves to `new_ord`;
/// rows between the two positions shift by one toward the vacated place;
/// everything else is untouched.
pub open spec fn reorder_one(
    m: MediaOfferV,
    media_id: u128,
    offer_id: u128,
    user_id: Seq<char>,
    old_ord: int,
    new_ord: int,
) -> MediaOfferV {
    if !in_offer_of_owner(m, offer_id, user_id) {
        m
    } else if m.media_id == media_id {
        MediaOfferV { ordering: new_ord, ..m }
    } else if old_ord < new_ord && old_ord < m.ordering <= new_ord {
        MediaOfferV { ordering: m.ordering - 1, ..m }
    } else if new_ord < old_ord && new_ord <= m.ordering < old_ord {
        MediaOfferV { ordering: m.ordering + 1, ..m }
    } else {
        m
    }
}

impl MediaOffer {
    /// Inserts a new association with the given ordering.
    ///
    /// Fails with `Internal` exactly when the composite key already exists
    /// (a key-constraint violation); the state is then unchanged.
    pub fn create(
        db: &mut Db,
        media_id: u128,
        offer_id: u128,
        user_id: &String,
        ordering: i64,
    ) -> (r: Result<(), Error>)
        requires
            old(db).wf(),
        ensures
            final(db).wf(),
            final(db)@.medias == old(db)@.medias,
            final(db)@.quotas == old(db)@.quotas,
            final(db)@.media_subscriptions == old(db)@.media_subscriptions,
            final(db)@.sub_shops == old(db)@.sub_shops,
            final(db)@.sub_offers == old(db)@.sub_offers,
            match r {
                Ok(()) => {
                    &&& find_media_offer(old(db)@.media_offers, media_id, offer_id) is None
                    &&& final(db)@.media_offers == old(db)@.media_offers.push(
                        MediaOfferV {
                            media_id,
                            offer_id,
                            user_id: user_id@,
                            ordering: ordering as int,
                        },
                    )
                },
                Err(e) => {
                    &&& e == Error::Internal
                    &&& find_media_offer(old(db)@.media_offers, media_id, offer_id) is Some
                    &&& final(db)@.media_offers == old(db)@.media_offers
                },
            },
    {
        let n = db.media_offers.len();
        for i in 0..n
            invariant
                n == db.media_offers.len(),
                *db == *old(db),
                old(db).wf(),
                forall|j: int|
                    0 <= j < i ==> !(db@.media_offers[j].media_id == media_id
                        && db@.media_offers[j].offer_id == offer_id),
        {
            proof {
                assert(db@.media_offers[i as int] == db.media_offers@[i as int]@);
            }
            if db.media_offers[i].media_id == media_id && db.media_offers[i].offer_id == offer_id {
                proof {
                    lemma_find_first_some(
                        db@.media_offers,
                        |m: MediaOfferV| m.media_id == media_id && m.offer_id == offer_id,
                        i as int,
                    );
                }
                return Err(Error::Internal);
            }
        }
        proof {
            lemma_find_first_none(
                db@.media_offers,
                |m: MediaOfferV| m.media_id == media_id && m.offer_id == offer_id,
            );
        }
        let ghost pre = db@.media_offers;
        let m = MediaOffer { media_id, offer_id, user_id: user_id.clone(), ordering };
        db.media_offers.push(m);
        proof {
            assert(db@.media_offers =~= pre.push(
                MediaOfferV { media_id, offer_id, user_id: user_id@, ordering: ordering as int },
            ));
        }
        Ok(())
    }

    /// Reads the association with the composite key `(media_id, offer_id)`.
    pub fn get(db: &Db, media_id: u128, offer_id: u128) -> (r: Option<MediaOffer>)
        ensures
            r.deep_view() == find_media_offer(db@.media_offers, media_id, offer_id),
    {
        let n = db.media_offers.len();
        for i in 0..n
            invariant
                n == db.media_offers.len(),
                forall|j: int|
                    0 <= j < i ==> !(db@.media_offers[j].media_id == media_id
                        && db@.media_offers[j].offer_id == offer_id),
        {
            proof {
                assert(db@.media_offers[i as int] == db.media_offers@[i as int]@);
            }
            if db.media_offers[i].media_id == media_id && db.media_offers[i].offer_id == offer_id {
                proof {
                    lemma_find_first_hit(
                        db@.media_offers,
                        |m: MediaOfferV| m.media_id == media_id && m.offer_id == offer_id,
                        i as int,
                    );
                }
                return Some(db.media_offers[i].clone());
            }
        }
        proof {
            lemma_find_first_none(
                db@.media_offers,
                |m: MediaOfferV| m.media_id == media_id && m.offer_id == offer_id,
            );
        }
        None
    }

    /// Reads every association of `offer_id` owned by `user_id`, in table
    /// order.
    pub fn list(db: &Db, user_id: &String, offer_id: u128) -> (r: Vec<MediaOffer>)
        ensures
            r.deep_view() == db@.media_offers.filter(
                |m: MediaOfferV| in_offer_of_owner(m, offer_id, user_id@),
            ),
    {
        let mut out: Vec<MediaOffer> = Vec::new();
        let n = db.media_offers.len();
        for i in 0..n
            invariant
                n == db.media_offers.len(),
                out.deep_view() == db@.media_offers.take(i as int).filter(
                    |m: MediaOfferV| in_offer_of_owner(m, offer_id, user_id@),
                ),
        {
            proof {
                reveal(Seq::filter);
                assert(db@.media_offers[i as int] == db.media_offers@[i as int]@);
                assert(db@.media_offers.take(i + 1).drop_last() =~= db@.media_offers.take(i as int));
                assert(db@.media_offers.take(i + 1).last() == db@.media_offers[i as int]);
            }
            if db.media_offers[i].offer_id == offer_id && db.media_offers[i].user_id == *user_id {
                let ghost preout = out.deep_view();
                out.push(db.media_offers[i].clone());
                proof {
                    assert(out.deep_view() =~= preout.push(db@.media_offers[i as int]));
                }
            }
        }
        proof {
            assert(db@.media_offers.take(n as int) =~= db@.media_offers);
        }
        out
    }

    /// The highest ordering among the owner's associations of `offer_id`,
    /// `0` when there is none.
    pub fn get_highest_ordering(db: &Db, offer_id: u128, user_id: &String) -> (r: i64)
        ensures
            r == highest_ordering_of(db@.media_offers, offer_id, user_id@),
    {
        let mut best: Option<i64> = None;
        let n = db.media_offers.len();
        for i in 0..n
            invariant
                n == db.media_offers.len(),
                match best {
                    None => max_ordering(db@.media_offers.take(i as int), offer_id, user_id@)
                        is None,
                    Some(b) => max_ordering(db@.media_offers.take(i as int), offer_id, user_id@)
                        == Some(b as int),
                },
        {
            proof {
                assert(db@.media_offers[i as int] == db.media_offers@[i as int]@);
                assert(db@.media_offers.take(i + 1).drop_last() =~= db@.media_offers.take(i as int));
                assert(db@.media_offers.take(i + 1).last() == db@.media_offers[i as int]);
            }
            if db.media_offers[i].offer_id == offer_id && db.media_offers[i].user_id == *user_id {
                let ord = db.media_offers[i].ordering;
                best = match best {
                    None => Some(ord),
                    Some(b) => Some(
                        if ord > b {
                            ord
                        } else {
                            b
                        },
                    ),
                };
            }
        }
        proof {
            assert(db@.media_offers.take(n as int) =~= db@.media_offers);
        }
        match best {
            Some(b) => b,
            None => 0,
        }
    }

    /// Sets the ordering of the association `(media_id, offer_id)` owned by
    /// `user_id`; a missing row makes the call a no-op, as a keyed update
    /// that matches nothing.
    pub fn update_ordering(
        db: &mut Db,
        media_id: u128,
        offer_id: u128,
        user_id: &String,
        ordering: i64,
    )
        requires
            old(db).wf(),
        ensures
            final(db).wf(),
            final(db)@.medias == old(db)@.medias,
            final(db)@.quotas == old(db)@.quotas,
            final(db)@.media_subscriptions == old(db)@.media_subscriptions,
            final(db)@.sub_shops == old(db)@.sub_shops,
            final(db)@.sub_offers == old(db)@.sub_offers,
            final(db)@.media_offers.len() == old(db)@.media_offers.len(),
            forall|j: int|
                0 <= j < old(db)@.media_offers.len() ==> final(db)@.media_offers[j] == (if old(
                    db,
                )@.media_offers[j].media_id == media_id && old(db)@.media_offers[j].offer_id
                    == offer_id && old(db)@.media_offers[j].user_id == user_id@ {
                    MediaOfferV { ordering: ordering as int, ..old(db)@.media_offers[j] }
                } else {
                    old(db)@.media_offers[j]
                }),
    {
        let ghost pre = db@.media_offers;
        let n = db.media_offers.len();
        for i in 0..n
            invariant
                n == db.media_offers.len(),
                old(db).wf(),
                db.medias == old(db).medias,
                db.quotas == old(db).quotas,
                db.media_subscriptions == old(db).media_subscriptions,
                db.sub_shops == old(db).sub_shops,
                db.sub_offers == old(db).sub_offers,
                pre == old(db)@.media_offers,
                db@.media_offers.len() == pre.len(),
                forall|j: int| i <= j < pre.len() ==> db@.media_offers[j] == pre[j],
                forall|j: int|
                    0 <= j < i ==> db@.media_offers[j] == (if pre[j].media_id == media_id
                        && pre[j].offer_id == offer_id && pre[j].user_id == user_id@ {
                        MediaOfferV { ordering: ordering as int, ..pre[j] }
                    } else {
                        pre[j]
                    }),
        {
            proof {
                assert(db@.media_offers[i as int] == db.media_offers@[i as int]@);
            }
            if db.media_offers[i].media_id == media_id && db.media_offers[i].offer_id == offer_id
                && db.media_offers[i].user_id == *user_id {
                let ghost snap = db@.media_offers;
                let mut m = db.media_offers.remove(i);
                m.ordering = ordering;
                db.media_offers.insert(i, m);
                proof {
                    assert(db@.media_offers =~= snap.update(
                        i as int,
                        MediaOfferV { ordering: ordering as int, ..snap[i as int] },
                    ));
                }
            }
        }
        proof {
            lemma_pointwise_keys_keep_wf(pre, db@.media_offers);
        }
    }

    /// Removes the association `(media_id, offer_id)` owned by `user_id`;
    /// removing an absent association is a no-op.
    pub fn delete(db: &mut Db, media_id: u128, offer_id: u128, user_id: &String)
        requires
            old(db).wf(),
        ensures
            final(db).wf(),
            final(db)@.medias == old(db)@.medias,
            final(db)@.quotas == old(db)@.quotas,
            final(db)@.media_subscriptions == old(db)@.media_subscriptions,
            final(db)@.sub_shops == old(db)@.sub_shops,
            final(db)@.sub_offers == old(db)@.sub_offers,
            final(db)@.media_offers == old(db)@.media_offers.filter(
                |m: MediaOfferV| !(m.media_id == media_id && m.offer_id == offer_id && m.user_id
                    == user_id@),
            ),
    {
        let mut out: Vec<MediaOffer> = Vec::new();
        let n = db.media_offers.len();
        for i in 0..n
            invariant
                n == db.media_offers.len(),
                *db == *old(db),
                old(db).wf(),
                out.deep_view() == db@.media_offers.take(i as int).filter(
                    |m: MediaOfferV| !(m.media_id == media_id && m.offer_id == offer_id
                        && m.user_id == user_id@),
                ),
        {
            proof {
                reveal(Seq::filter);
                assert(db@.media_offers[i as int] == db.media_offers@[i as int]@);
                assert(db@.media_offers.take(i + 1).drop_last() =~= db@.media_offers.take(i as int));
                assert(db@.media_offers.take(i + 1).last() == db@.media_offers[i as int]);
            }
            if !(db.media_offers[i].media_id == media_id && db.media_offers[i].offer_id == offer_id
                && db.media_offers[i].user_id == *user_id) {
                let ghost preout = out.deep_view();
                out.push(db.media_offers[i].clone());
                proof {
                    assert(out.deep_view() =~= preout.push(db@.media_offers[i as int]));
                }
            }
        }
        proof {
            assert(db@.media_offers.take(n as int) =~= db@.media_offers);
        }
        db.media_offers = out;
        proof {
            let keep = |m: MediaOfferV| !(m.media_id == media_id && m.offer_id == offer_id
                && m.user_id == user_id@);
            let f = old(db)@.media_offers.filter(keep);
            assert forall|i: int, j: int|
                0 <= i < j < f.len() implies !(f[i].media_id == f[j].media_id && f[i].offer_id
                == f[j].offer_id) by {
                crate::model::lemma_filter_pairwise(
                    old(db)@.media_offers,
                    keep,
                    |a: MediaOfferV, b: MediaOfferV| !(a.media_id == b.media_id && a.offer_id
                        == b.offer_id),
                    i,
                    j,
                );
            }
            assert forall|i: int|
                0 <= i < f.len() implies i64::MIN <= #[trigger] f[i].ordering <= i64::MAX by {
                crate::model::lemma_filter_element_of(old(db)@.media_offers, keep, i);
            }
        }
    }
}

/// A pointwise transformation that keeps every composite key and every
/// ordering bound keeps the table invariant.
pub proof fn lemma_pointwise_keys_keep_wf(pre: Seq<MediaOfferV>, post: Seq<MediaOfferV>)
    requires
        media_offers_wf(pre),
        post.len() == pre.len(),
        forall|j: int| 0 <= j < pre.len() ==> #[trigger] post[j].media_id == pre[j].media_id,
        forall|j: int| 0 <= j < pre.len() ==> #[trigger] post[j].offer_id == pre[j].offer_id,
        forall|j: int| 0 <= j < pre.len() ==> i64::MIN <= #[trigger] post[j].ordering <= i64::MAX,
    ensures
        media_offers_wf(post),
{
    assert forall|i: int, j: int|
        0 <= i < j < post.len() implies !(post[i].media_id == post[j].media_id && post[i].offer_id
        == post[j].offer_id) by {
        assert(post[i].media_id == pre[i].media_id && post[i].offer_id == pre[i].offer_id);
        assert(post[j].media_id == pre[j].media_id && post[j].offer_id == pre[j].offer_id);
    }
    assert forall|i: int|
        0 <= i < post.len() implies i64::MIN <= #[trigger] post[i].ordering <= i64::MAX by {
        assert(post[i].media_id == pre[i].media_id && i64::MIN <= post[i].ordering <= i64::MAX);
    }
}


/// The number of rows of `offer_id`.
pub open spec fn offer_count(s: Seq<MediaOfferV>, offer_id: u128) -> int
    decreases s.len(),
{
    if s.len() == 0 {
        0
    } else {
        offer_count(s.drop_last(), offer_id) + if s.last().offer_id == offer_id {
            1int
        } else {
            0int
        }
    }
}

/// The ordering of an offer's associations is dense: over `n` rows of the
/// offer, the orderings are pairwise distinct values within `1..=n` — which
/// forces them to be exactly `{1, …, n}`, with no gap and no duplicate.
pub open spec fn dense_orderings(s: Seq<MediaOfferV>, offer_id: u128) -> bool {
    let n = offer_count(s, offer_id);
    &&& forall|i: int|
        0 <= i < s.len() && s[i].offer_id == offer_id ==> 1 <= #[trigger] s[i].ordering <= n
    &&& forall|i: int, j: int|
        0 <= i < j < s.len() && s[i].offer_id == offer_id && s[j].offer_id == offer_id
            ==> s[i].ordering != s[j].ordering
}

/// The set of orderings carried by the offer\'s rows.
pub open spec fn ordering_set(s: Seq<MediaOfferV>, offer_id: u128) -> Set<int>
    decreases s.len(),
{
    if s.len() == 0 {
        Set::empty()
    } else {
        let rest = ordering_set(s.drop_last(), offer_id);
        if s.last().offer_id == offer_id {
            rest.insert(s.last().ordering)
        } else {
            rest
        }
    }
}

/// What the ordering set holds: exactly the orderings of the offer\'s
/// rows; with pairwise-distinct orderings it is as large as the offer\'s
/// row count.
proof fn lemma_ordering_set_props(s: Seq<MediaOfferV>, offer_id: u128)
    requires
        forall|i: int, j: int|
            0 <= i < j < s.len() && s[i].offer_id == offer_id && s[j].offer_id == offer_id
                ==> s[i].ordering != s[j].ordering,
    ensures
        ordering_set(s, offer_id).finite(),
        ordering_set(s, offer_id).len() == offer_count(s, offer_id),
        forall|k: int|
            ordering_set(s, offer_id).contains(k) <==> exists|i: int|
                0 <= i < s.len() && (#[trigger] s[i]).offer_id == offer_id && s[i].ordering == k,
    decreases s.len(),
{
    if s.len() > 0 {
        assert(forall|i: int| 0 <= i < s.len() - 1 ==> s.drop_last()[i] == s[i]);
        lemma_ordering_set_props(s.drop_last(), offer_id);
        let rest = ordering_set(s.drop_last(), offer_id);
        let last = s.last();
        if last.offer_id == offer_id {
            assert(s[s.len() - 1] == last);
            // The last row\'s ordering is new to the set.
            assert(!rest.contains(last.ordering)) by {
                if rest.contains(last.ordering) {
                    let w = choose|i: int|
                        0 <= i < s.drop_last().len() && s.drop_last()[i].offer_id == offer_id
                            && s.drop_last()[i].ordering == last.ordering;
                    assert(s[w].ordering != s[s.len() - 1].ordering);
                }
            }
            assert forall|k: int| ordering_set(s, offer_id).contains(k) implies exists|i: int|
                0 <= i < s.len() && (#[trigger] s[i]).offer_id == offer_id && s[i].ordering
                    == k by {
                if k == last.ordering {
                    assert(s[s.len() - 1].offer_id == offer_id && s[s.len() - 1].ordering == k);
                } else {
                    let w = choose|i: int|
                        0 <= i < s.drop_last().len() && (#[trigger] s.drop_last()[i]).offer_id
                            == offer_id && s.drop_last()[i].ordering == k;
                    assert(s[w].offer_id == offer_id && s[w].ordering == k);
                }
            }
            assert forall|k: int| (exists|i: int|
                0 <= i < s.len() && (#[trigger] s[i]).offer_id == offer_id && s[i].ordering
                    == k) implies ordering_set(s, offer_id).contains(k) by {
                let w = choose|i: int|
                    0 <= i < s.len() && (#[trigger] s[i]).offer_id == offer_id && s[i].ordering
                        == k;
                if w < s.len() - 1 {
                    assert(s.drop_last()[w].offer_id == offer_id && s.drop_last()[w].ordering
                        == k);
                }
            }
        } else {
            assert forall|k: int| (exists|i: int|
                0 <= i < s.len() && (#[trigger] s[i]).offer_id == offer_id && s[i].ordering
                    == k) implies ordering_set(s, offer_id).contains(k) by {
                let w = choose|i: int|
                    0 <= i < s.len() && (#[trigger] s[i]).offer_id == offer_id && s[i].ordering
                        == k;
                assert(w < s.len() - 1);
                assert(s.drop_last()[w].offer_id == offer_id && s.drop_last()[w].ordering == k);
            }
            assert forall|k: int| ordering_set(s, offer_id).contains(k) implies exists|i: int|
                0 <= i < s.len() && (#[trigger] s[i]).offer_id == offer_id && s[i].ordering
                    == k by {
                let w = choose|i: int|
                    0 <= i < s.drop_last().len() && (#[trigger] s.drop_last()[i]).offer_id
                        == offer_id && s.drop_last()[i].ordering == k;
                assert(s[w].offer_id == offer_id && s[w].ordering == k);
            }
        }
    }
}

/// Whether some row of the offer carries ordering `k`.
pub open spec fn some_row_has_ordering(s: Seq<MediaOfferV>, offer_id: u128, k: int) -> bool {
    exists|i: int|
        0 <= i < s.len() && (#[trigger] s[i]).offer_id == offer_id && s[i].ordering == k
}

/// LAW (ordering density, completeness): over `n` rows of an offer, dense
/// orderings attain every value of `1..=n` — the ordering set is exactly
/// `{1, …, n}`, with no gap and no duplicate.
pub proof fn lemma_dense_orderings_complete(s: Seq<MediaOfferV>, offer_id: u128)
    requires
        dense_orderings(s, offer_id),
    ensures
        forall|k: int|
            1 <= k <= offer_count(s, offer_id) ==> #[trigger] some_row_has_ordering(
                s,
                offer_id,
                k,
            ),
{
    let n = offer_count(s, offer_id);
    lemma_ordering_set_props(s, offer_id);
    let os = ordering_set(s, offer_id);
    let range = vstd::set_lib::set_int_range(1, n + 1);
    assert(os.subset_of(range)) by {
        assert forall|k: int| os.contains(k) implies range.contains(k) by {
            let w = choose|i: int|
                0 <= i < s.len() && (#[trigger] s[i]).offer_id == offer_id && s[i].ordering == k;
            assert(1 <= s[w].ordering <= n);
        }
    }
    vstd::set_lib::lemma_int_range(1, n + 1);
    vstd::set_lib::lemma_subset_equality(os, range);
    assert forall|k: int| 1 <= k <= n implies #[trigger] some_row_has_ordering(
        s,
        offer_id,
        k,
    ) by {
        assert(range.contains(k));
        assert(os.contains(k));
    }
}

/// A pointwise transformation that keeps each row's offer keeps the
/// offer's row count.
proof fn lemma_offer_count_map(s: Seq<MediaOfferV>, f: spec_fn(MediaOfferV) -> MediaOfferV, offer_id: u128)
    requires
        forall|m: MediaOfferV| (#[trigger] f(m)).offer_id == m.offer_id,
    ensures
        offer_count(s.map_values(f), offer_id) == offer_count(s, offer_id),
    decreases s.len(),
{
    if s.len() > 0 {
        assert(s.map_values(f).drop_last() =~= s.drop_last().map_values(f));
        lemma_offer_count_map(s.drop_last(), f, offer_id);
        assert(s.map_values(f).last() == f(s.last()));
    }
}

/// A table without rows of the offer counts zero.
proof fn lemma_offer_count_empty(s: Seq<MediaOfferV>, offer_id: u128)
    requires
        forall|i: int| 0 <= i < s.len() ==> (#[trigger] s[i]).offer_id != offer_id,
    ensures
        offer_count(s, offer_id) == 0,
    decreases s.len(),
{
    if s.len() > 0 {
        lemma_offer_count_empty(s.drop_last(), offer_id);
    }
}

/// What `max_ordering` returns: the greatest ordering among the owner\'s
/// rows of the offer, and `None` exactly when there is no such row.
pub proof fn lemma_max_ordering_props(s: Seq<MediaOfferV>, offer_id: u128, user_id: Seq<char>)
    ensures
        match max_ordering(s, offer_id, user_id) {
            Some(v) => {
                &&& exists|i: int|
                    0 <= i < s.len() && in_offer_of_owner(#[trigger] s[i], offer_id, user_id)
                        && s[i].ordering == v
                &&& forall|i: int|
                    0 <= i < s.len() && in_offer_of_owner(#[trigger] s[i], offer_id, user_id)
                        ==> s[i].ordering <= v
            },
            None => forall|i: int|
                0 <= i < s.len() ==> !in_offer_of_owner(#[trigger] s[i], offer_id, user_id),
        },
    decreases s.len(),
{
    if s.len() > 0 {
        lemma_max_ordering_props(s.drop_last(), offer_id, user_id);
        let last = s.last();
        assert(forall|i: int| 0 <= i < s.len() - 1 ==> s.drop_last()[i] == s[i]);
        assert(s[s.len() - 1] == last);
        match max_ordering(s.drop_last(), offer_id, user_id) {
            Some(v0) => {
                let w = choose|i: int|
                    0 <= i < s.drop_last().len() && in_offer_of_owner(
                        s.drop_last()[i],
                        offer_id,
                        user_id,
                    ) && s.drop_last()[i].ordering == v0;
                assert(s[w] == s.drop_last()[w]);
                match max_ordering(s, offer_id, user_id) {
                    Some(v) => {
                        if in_offer_of_owner(last, offer_id, user_id) && last.ordering > v0 {
                            assert(in_offer_of_owner(s[s.len() - 1], offer_id, user_id) && s[s.len()
                                - 1].ordering == v);
                        } else {
                            assert(in_offer_of_owner(s[w], offer_id, user_id) && s[w].ordering
                                == v);
                        }
                        assert forall|i: int|
                            0 <= i < s.len() && in_offer_of_owner(
                                #[trigger] s[i],
                                offer_id,
                                user_id,
                            ) implies s[i].ordering <= v by {
                            if i < s.len() - 1 {
                                assert(s.drop_last()[i] == s[i]);
                                assert(s.drop_last()[i].ordering <= v0);
                            }
                        }
                    },
                    None => {},
                }
            },
            None => {
                if in_offer_of_owner(last, offer_id, user_id) {
                    assert(in_offer_of_owner(s[s.len() - 1], offer_id, user_id) && s[s.len()
                        - 1].ordering == last.ordering);
                    assert forall|i: int|
                        0 <= i < s.len() && in_offer_of_owner(#[trigger] s[i], offer_id, user_id)
                        implies s[i].ordering <= last.ordering by {
                        if i < s.len() - 1 {
                            assert(s.drop_last()[i] == s[i]);
                            assert(!in_offer_of_owner(s.drop_last()[i], offer_id, user_id));
                        }
                    }
                } else {
                    assert forall|i: int|
                        0 <= i < s.len() implies !in_offer_of_owner(
                        #[trigger] s[i],
                        offer_id,
                        user_id,
                    ) by {
                        if i < s.len() - 1 {
                            assert(s.drop_last()[i] == s[i]);
                            assert(!in_offer_of_owner(s.drop_last()[i], offer_id, user_id));
                        }
                    }
                }
            },
        }
    }
}

/// LAW (ordering density under attach): appending an association at one
/// past the highest ordering of the offer keeps the offer\'s orderings
/// dense, on any state where the offer\'s rows all belong to the attaching
/// owner.
pub proof fn lemma_attach_preserves_density(
    s: Seq<MediaOfferV>,
    offer_id: u128,
    user_id: Seq<char>,
    new: MediaOfferV,
)
    requires
        dense_orderings(s, offer_id),
        forall|i: int|
            0 <= i < s.len() && (#[trigger] s[i]).offer_id == offer_id ==> s[i].user_id == user_id,
        new.offer_id == offer_id,
        new.ordering == highest_ordering_of(s, offer_id, user_id) + 1,
    ensures
        dense_orderings(s.push(new), offer_id),
{
    let post = s.push(new);
    let n = offer_count(s, offer_id);
    assert(post.drop_last() =~= s);
    assert(offer_count(post, offer_id) == n + 1);
    lemma_max_ordering_props(s, offer_id, user_id);
    match max_ordering(s, offer_id, user_id) {
        Some(v) => {
            let w = choose|i: int|
                0 <= i < s.len() && in_offer_of_owner(s[i], offer_id, user_id) && s[i].ordering
                    == v;
            assert(1 <= v <= n);
            assert forall|i: int|
                0 <= i < post.len() && post[i].offer_id == offer_id implies 1
                <= #[trigger] post[i].ordering <= n + 1 by {
                if i < s.len() {
                    assert(post[i] == s[i]);
                }
            }
            assert forall|i: int, j: int|
                0 <= i < j < post.len() && post[i].offer_id == offer_id && post[j].offer_id
                    == offer_id implies post[i].ordering != post[j].ordering by {
                if j == s.len() {
                    assert(post[i] == s[i]);
                    assert(in_offer_of_owner(s[i], offer_id, user_id));
                    assert(s[i].ordering <= v);
                }
            }
        },
        None => {
            assert forall|i: int|
                0 <= i < s.len() implies (#[trigger] s[i]).offer_id != offer_id by {
                if s[i].offer_id == offer_id {
                    assert(in_offer_of_owner(s[i], offer_id, user_id));
                }
            }
            lemma_offer_count_empty(s, offer_id);
            assert(new.ordering == 1);
        },
    }
}

/// LAW (ordering density under reorder): moving an association of the
/// offer to a position within `1..=n` and shifting the rows between the
/// two positions keeps the offer\'s orderings dense, on any state where
/// the offer\'s rows all belong to the moving owner.
pub proof fn lemma_reorder_preserves_density(
    s: Seq<MediaOfferV>,
    media_id: u128,
    offer_id: u128,
    user_id: Seq<char>,
    old_ord: int,
    new_ord: int,
)
    requires
        dense_orderings(s, offer_id),
        media_offers_wf(s),
        forall|i: int|
            0 <= i < s.len() && (#[trigger] s[i]).offer_id == offer_id ==> s[i].user_id == user_id,
        find_media_offer(s, media_id, offer_id) matches Some(t) && t.ordering == old_ord,
        1 <= new_ord <= offer_count(s, offer_id),
    ensures
        dense_orderings(
            s.map_values(|m: MediaOfferV| reorder_one(m, media_id, offer_id, user_id, old_ord, new_ord)),
            offer_id,
        ),
{
    let f = |m: MediaOfferV| reorder_one(m, media_id, offer_id, user_id, old_ord, new_ord);
    let post = s.map_values(f);
    let n = offer_count(s, offer_id);
    assert forall|m: MediaOfferV| (#[trigger] f(m)).offer_id == m.offer_id by {}
    lemma_offer_count_map(s, f, offer_id);
    crate::model::lemma_find_first_sound(
        s,
        |m: MediaOfferV| m.media_id == media_id && m.offer_id == offer_id,
    );
    let t = find_media_offer(s, media_id, offer_id).unwrap();
    let ti = choose|i: int| 0 <= i < s.len() && s[i] == t;
    assert(1 <= old_ord <= n);
    assert forall|i: int|
        0 <= i < post.len() && post[i].offer_id == offer_id implies 1 <= #[trigger] post[i].ordering
        <= n by {
        assert(post[i] == f(s[i]));
        assert(1 <= s[i].ordering <= n);
    }
    assert forall|i: int, j: int|
        0 <= i < j < post.len() && post[i].offer_id == offer_id && post[j].offer_id == offer_id
        implies post[i].ordering != post[j].ordering by {
        assert(post[i] == f(s[i]));
        assert(post[j] == f(s[j]));
        assert(s[i].ordering != s[j].ordering);
        assert(s[i].user_id == user_id && s[j].user_id == user_id);
        // At most one row is the moved association.
        if s[i].media_id == media_id && s[j].media_id == media_id {
            assert(false);
        }
        // A row other than the target never carries the target\'s old
        // ordering.
        if s[i].media_id != media_id && s[i].ordering == old_ord {
            assert(s[ti] == t);
            assert(i != ti);
            assert(s[i].ordering != s[ti].ordering);
            assert(false);
        }
        if s[j].media_id != media_id && s[j].ordering == old_ord {
            assert(s[ti] == t);
            assert(j != ti);
            assert(s[j].ordering != s[ti].ordering);
            assert(false);
        }
    }
}

/// LAW (reorder is a no-op at the current position): moving an
/// association to the ordering it already has leaves every row of the
/// table unchanged.
pub proof fn lemma_reorder_noop(
    s: Seq<MediaOfferV>,
    media_id: u128,
    offer_id: u128,
    user_id: Seq<char>,
    x: int,
)
    requires
        forall|i: int|
            0 <= i < s.len() && (#[trigger] s[i]).media_id == media_id && s[i].offer_id == offer_id
                && s[i].user_id == user_id ==> s[i].ordering == x,
    ensures
        s.map_values(|m: MediaOfferV| reorder_one(m, media_id, offer_id, user_id, x, x)) == s,
{
    let f = |m: MediaOfferV| reorder_one(m, media_id, offer_id, user_id, x, x);
    assert forall|i: int| 0 <= i < s.len() implies s.map_values(f)[i] == s[i] by {
        assert(s.map_values(f)[i] == f(s[i]));
        if in_offer_of_owner(s[i], offer_id, user_id) && s[i].media_id == media_id {
            assert(s[i].ordering == x);
            assert(f(s[i]) =~~= s[i]);
        }
    }
    assert(s.map_values(f) =~= s);
}

} // verus!


