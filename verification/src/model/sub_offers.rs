//! Cached offer-ownership facts.

use vstd::prelude::*;

use crate::model::{find_first, lemma_find_first_hit, lemma_find_first_none, lemma_find_first_some,
    Db};
use crate::Error;

verus! {

/// A locally cached offer-ownership fact: the offer, its shop and its
/// owning user.
#[derive(Debug)]
pub struct SubOffer {
    pub offer_id: u128,
    pub shop_id: u128,
    pub user_id: String,
}

/// Abstract view of an offer fact.
#[verifier::ext_equal]
pub struct SubOfferV {
    pub offer_id: u128,
    pub shop_id: u128,
    pub user_id: Seq<char>,
}

impl View for SubOffer {
    type V = SubOfferV;

    open spec fn view(&self) -> SubOfferV {
        SubOfferV { offer_id: self.offer_id, shop_id: self.shop_id, user_id: self.user_id@ }
    }
}

impl DeepView for SubOffer {
    type V = SubOfferV;

    open spec fn deep_view(&self) -> SubOfferV {
        self.view()
    }
}

impl Clone for SubOffer {
    /// A clone preserves the view.
    fn clone(&self) -> (r: Self)
        ensures
            r@ == self@,
    {
        SubOffer { offer_id: self.offer_id, shop_id: self.shop_id, user_id: self.user_id.clone() }
    }
}

/// The offer fact with `offer_id`, if any.
pub open spec fn find_sub_offer(s: Seq<SubOfferV>, offer_id: u128) -> Option<SubOfferV> {
    find_first(s, |m: SubOfferV| m.offer_id == offer_id)
}

/// Offer identities are unique.
pub open spec fn sub_offers_wf(s: Seq<SubOfferV>) -> bool {
    forall|i: int, j: int| 0 <= i < j < s.len() ==> s[i].offer_id != s[j].offer_id
}


/// The offer fact with `offer_id` owned by `user_id`, if any.
pub open spec fn find_sub_offer_for_owner(
    s: Seq<SubOfferV>,
    offer_id: u128,
    user_id: Seq<char>,
) -> Option<SubOfferV> {
    find_first(s, |m: SubOfferV| m.offer_id == offer_id && m.user_id == user_id)
}

/// The offer table after an upsert: the existing fact's shop and owner are
/// replaced, or a new fact appended.
pub open spec fn upserted_sub_offers(
    pre: Seq<SubOfferV>,
    offer_id: u128,
    shop_id: u128,
    user_id: Seq<char>,
) -> Seq<SubOfferV> {
    let new = SubOfferV { offer_id, shop_id, user_id };
    if find_sub_offer(pre, offer_id) is Some {
        pre.map_values(
            |m: SubOfferV|
                if m.offer_id == offer_id {
                    new
                } else {
                    m
                },
        )
    } else {
        pre.push(new)
    }
}

impl SubOffer {
    /// Replaces the cached fact for `offer_id` wholesale, or creates it.
    pub fn upsert(db: &mut Db, offer_id: u128, shop_id: u128, user_id: &String) -> (r: Result<
        SubOffer,
        Error,
    >)
        requires
            old(db).wf(),
        ensures
            final(db).wf(),
            final(db)@.medias == old(db)@.medias,
            final(db)@.media_offers == old(db)@.media_offers,
            final(db)@.quotas == old(db)@.quotas,
            final(db)@.media_subscriptions == old(db)@.media_subscriptions,
            final(db)@.sub_shops == old(db)@.sub_shops,
            final(db)@.sub_offers == upserted_sub_offers(
                old(db)@.sub_offers,
                offer_id,
                shop_id,
                user_id@,
            ),
            r matches Ok(m) && m@ == (SubOfferV { offer_id, shop_id, user_id: user_id@ }),
    {
        let n = db.sub_offers.len();
        for i in 0..n
            invariant
                n == db.sub_offers.len(),
                *db == *old(db),
                old(db).wf(),
                forall|j: int| 0 <= j < i ==> db@.sub_offers[j].offer_id != offer_id,
        {
            proof {
                assert(db@.sub_offers[i as int] == db.sub_offers@[i as int]@);
            }
            if db.sub_offers[i].offer_id == offer_id {
                proof {
                    lemma_find_first_hit(
                        db@.sub_offers,
                        |m: SubOfferV| m.offer_id == offer_id,
                        i as int,
                    );
                }
                let ghost pre = db@.sub_offers;
                let mut m = db.sub_offers.remove(i);
                m.shop_id = shop_id;
                m.user_id = user_id.clone();
                let out = m.clone();
                db.sub_offers.insert(i, m);
                proof {
                    assert(pre[i as int].offer_id == offer_id);
                    assert forall|j: int| 0 <= j < pre.len() && j != i as int implies pre[j].offer_id
                        != offer_id by {
                        if j > i as int {
                            assert(pre[i as int].offer_id != pre[j].offer_id);
                        }
                    }
                    assert(db@.sub_offers =~~= upserted_sub_offers(pre, offer_id, shop_id, user_id@));
                }
                return Ok(out);
            }
        }
        proof {
            lemma_find_first_none(db@.sub_offers, |m: SubOfferV| m.offer_id == offer_id);
        }
        let ghost pre = db@.sub_offers;
        let m = SubOffer { offer_id, shop_id, user_id: user_id.clone() };
        let out = m.clone();
        db.sub_offers.push(m);
        proof {
            assert(db@.sub_offers =~~= pre.push(SubOfferV { offer_id, shop_id, user_id: user_id@ }));
        }
        Ok(out)
    }

    /// Reads the cached fact for `offer_id` if its owner is `user_id`.
    pub fn get_for_owner(db: &Db, offer_id: u128, user_id: &String) -> (r: Option<SubOffer>)
        ensures
            r.deep_view() == find_sub_offer_for_owner(db@.sub_offers, offer_id, user_id@),
    {
        let n = db.sub_offers.len();
        for i in 0..n
            invariant
                n == db.sub_offers.len(),
                forall|j: int|
                    0 <= j < i ==> !(db@.sub_offers[j].offer_id == offer_id
                        && db@.sub_offers[j].user_id == user_id@),
        {
            proof {
                assert(db@.sub_offers[i as int] == db.sub_offers@[i as int]@);
            }
            if db.sub_offers[i].offer_id == offer_id && db.sub_offers[i].user_id == *user_id {
                proof {
                    lemma_find_first_hit(
                        db@.sub_offers,
                        |m: SubOfferV| m.offer_id == offer_id && m.user_id == user_id@,
                        i as int,
                    );
                }
                return Some(db.sub_offers[i].clone());
            }
        }
        proof {
            lemma_find_first_none(
                db@.sub_offers,
                |m: SubOfferV| m.offer_id == offer_id && m.user_id == user_id@,
            );
        }
        None
    }

    /// Removes the cached fact for `offer_id` and returns it.
    ///
    /// Fails with `NotFound` exactly when no such fact is cached; the
    /// state is then unchanged.
    pub fn delete(db: &mut Db, offer_id: u128) -> (r: Result<SubOffer, Error>)
        requires
            old(db).wf(),
        ensures
            final(db).wf(),
            final(db)@.medias == old(db)@.medias,
            final(db)@.media_offers == old(db)@.media_offers,
            final(db)@.quotas == old(db)@.quotas,
            final(db)@.media_subscriptions == old(db)@.media_subscriptions,
            final(db)@.sub_shops == old(db)@.sub_shops,
            match r {
                Ok(m) => {
                    &&& find_sub_offer(old(db)@.sub_offers, offer_id) == Some(m@)
                    &&& final(db)@.sub_offers == old(db)@.sub_offers.filter(
                        |m: SubOfferV| m.offer_id != offer_id,
                    )
                },
                Err(e) => {
                    &&& e == Error::NotFound
                    &&& find_sub_offer(old(db)@.sub_offers, offer_id) is None
                    &&& final(db)@.sub_offers == old(db)@.sub_offers
                },
            },
    {
        let found = match Self::get_by_offer(db, offer_id) {
            Some(m) => m,
            None => {
                return Err(Error::NotFound);
            },
        };
        let mut out: Vec<SubOffer> = Vec::new();
        let n = db.sub_offers.len();
        for i in 0..n
            invariant
                n == db.sub_offers.len(),
                *db == *old(db),
                old(db).wf(),
                out.deep_view() == db@.sub_offers.take(i as int).filter(
                    |m: SubOfferV| m.offer_id != offer_id,
                ),
        {
            proof {
                reveal(Seq::filter);
                assert(db@.sub_offers[i as int] == db.sub_offers@[i as int]@);
                assert(db@.sub_offers.take(i + 1).drop_last() =~= db@.sub_offers.take(i as int));
                assert(db@.sub_offers.take(i + 1).last() == db@.sub_offers[i as int]);
            }
            if !(db.sub_offers[i].offer_id == offer_id) {
                let ghost preout = out.deep_view();
                out.push(db.sub_offers[i].clone());
                proof {
                    assert(out.deep_view() =~= preout.push(db@.sub_offers[i as int]));
                }
            }
        }
        proof {
            assert(db@.sub_offers.take(n as int) =~= db@.sub_offers);
        }
        db.sub_offers = out;
        proof {
            let keep = |m: SubOfferV| m.offer_id != offer_id;
            let f = old(db)@.sub_offers.filter(keep);
            assert forall|i: int, j: int|
                0 <= i < j < f.len() implies f[i].offer_id != f[j].offer_id by {
                crate::model::lemma_filter_pairwise(
                    old(db)@.sub_offers,
                    keep,
                    |a: SubOfferV, b: SubOfferV| a.offer_id != b.offer_id,
                    i,
                    j,
                );
            }
        }
        Ok(found)
    }

    /// Reads the cached fact for `offer_id` regardless of owner.
    fn get_by_offer(db: &Db, offer_id: u128) -> (r: Option<SubOffer>)
        ensures
            r.deep_view() == find_sub_offer(db@.sub_offers, offer_id),
    {
        let n = db.sub_offers.len();
        for i in 0..n
            invariant
                n == db.sub_offers.len(),
                forall|j: int| 0 <= j < i ==> db@.sub_offers[j].offer_id != offer_id,
        {
            proof {
                assert(db@.sub_offers[i as int] == db.sub_offers@[i as int]@);
            }
            if db.sub_offers[i].offer_id == offer_id {
                proof {
                    lemma_find_first_hit(
                        db@.sub_offers,
                        |m: SubOfferV| m.offer_id == offer_id,
                        i as int,
                    );
                }
                return Some(db.sub_offers[i].clone());
            }
        }
        proof {
            lemma_find_first_none(db@.sub_offers, |m: SubOfferV| m.offer_id == offer_id);
        }
        None
    }
}

} // verus!

