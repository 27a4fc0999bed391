//! Cached shop-ownership facts.

use vstd::prelude::*;

use crate::model::{find_first, lemma_find_first_hit, lemma_find_first_none, lemma_find_first_some,
    Db};
use crate::Error;

verus! {

/// Column names of the shop table in the persistent schema.
#[derive(Debug)]
pub enum SubShopIden {
    Table,
    ShopId,
    UserId,
}

impl SubShopIden {
    /// The snake_case name used by storage adapters.
    pub fn sql_name(&self) -> (r: String)
        ensures
            self is Table ==> r@ == "sub_shops"@,
            self is ShopId ==> r@ == "shop_id"@,
            self is UserId ==> r@ == "user_id"@,
    {
        match self {
            SubShopIden::Table => "sub_shops".to_owned(),
            SubShopIden::ShopId => "shop_id".to_owned(),
            SubShopIden::UserId => "user_id".to_owned(),
        }
    }
}

/// A locally cached shop-ownership fact.
#[derive(Debug)]
pub struct SubShop {
    pub shop_id: u128,
    pub user_id: String,
}

/// Abstract view of a shop fact.
#[verifier::ext_equal]
pub struct SubShopV {
    pub shop_id: u128,
    pub user_id: Seq<char>,
}

impl View for SubShop {
    type V = SubShopV;

    open spec fn view(&self) -> SubShopV {
        SubShopV { shop_id: self.shop_id, user_id: self.user_id@ }
    }
}

impl DeepView for SubShop {
    type V = SubShopV;

    open spec fn deep_view(&self) -> SubShopV {
        self.view()
    }
}

impl Clone for SubShop {
    /// A clone preserves the view.
    fn clone(&self) -> (r: Self)
        ensures
            r@ == self@,
    {
        SubShop { shop_id: self.shop_id, user_id: self.user_id.clone() }
    }
}

/// The shop fact with `shop_id`, if any.
pub open spec fn find_sub_shop(s: Seq<SubShopV>, shop_id: u128) -> Option<SubShopV> {
    find_first(s, |m: SubShopV| m.shop_id == shop_id)
}

/// Shop identities are unique.
pub open spec fn sub_shops_wf(s: Seq<SubShopV>) -> bool {
    forall|i: int, j: int| 0 <= i < j < s.len() ==> s[i].shop_id != s[j].shop_id
}


/// The shop fact with `shop_id` owned by `user_id`, if any.
pub open spec fn find_sub_shop_for_user(s: Seq<SubShopV>, shop_id: u128, user_id: Seq<char>) -> Option<
    SubShopV,
> {
    find_first(s, |m: SubShopV| m.shop_id == shop_id && m.user_id == user_id)
}

/// The shop table after an upsert: the existing fact's owner is replaced,
/// or a new fact appended.
pub open spec fn upserted_sub_shops(pre: Seq<SubShopV>, shop_id: u128, user_id: Seq<char>) -> Seq<
    SubShopV,
> {
    let new = SubShopV { shop_id, user_id };
    if find_sub_shop(pre, shop_id) is Some {
        pre.map_values(
            |m: SubShopV|
                if m.shop_id == shop_id {
                    new
                } else {
                    m
                },
        )
    } else {
        pre.push(new)
    }
}

impl SubShop {
    /// Replaces the cached fact for `shop_id` wholesale, or creates it.
    pub fn upsert(db: &mut Db, shop_id: u128, user_id: &String) -> (r: Result<SubShop, Error>)
        requires
            old(db).wf(),
        ensures
            final(db).wf(),
            final(db)@.medias == old(db)@.medias,
            final(db)@.media_offers == old(db)@.media_offers,
            final(db)@.quotas == old(db)@.quotas,
            final(db)@.media_subscriptions == old(db)@.media_subscriptions,
            final(db)@.sub_offers == old(db)@.sub_offers,
            final(db)@.sub_shops == upserted_sub_shops(old(db)@.sub_shops, shop_id, user_id@),
            r matches Ok(m) && m@ == (SubShopV { shop_id, user_id: user_id@ }),
    {
        let n = db.sub_shops.len();
        for i in 0..n
            invariant
                n == db.sub_shops.len(),
                *db == *old(db),
                old(db).wf(),
                forall|j: int| 0 <= j < i ==> db@.sub_shops[j].shop_id != shop_id,
        {
            proof {
                assert(db@.sub_shops[i as int] == db.sub_shops@[i as int]@);
            }
            if db.sub_shops[i].shop_id == shop_id {
                proof {
                    lemma_find_first_hit(
                        db@.sub_shops,
                        |m: SubShopV| m.shop_id == shop_id,
                        i as int,
                    );
                }
                let ghost pre = db@.sub_shops;
                let mut m = db.sub_shops.remove(i);
                m.user_id = user_id.clone();
                let out = m.clone();
                db.sub_shops.insert(i, m);
                proof {
                    assert(pre[i as int].shop_id == shop_id);
                    assert forall|j: int| 0 <= j < pre.len() && j != i as int implies pre[j].shop_id
                        != shop_id by {
                        if j > i as int {
                            assert(pre[i as int].shop_id != pre[j].shop_id);
                        }
                    }
                    assert(db@.sub_shops =~~= upserted_sub_shops(pre, shop_id, user_id@));
                }
                return Ok(out);
            }
        }
        proof {
            lemma_find_first_none(db@.sub_shops, |m: SubShopV| m.shop_id == shop_id);
        }
        let ghost pre = db@.sub_shops;
        let m = SubShop { shop_id, user_id: user_id.clone() };
        let out = m.clone();
        db.sub_shops.push(m);
        proof {
            assert(db@.sub_shops =~~= pre.push(SubShopV { shop_id, user_id: user_id@ }));
        }
        Ok(out)
    }

    /// Reads the cached fact for `shop_id` if its owner is `user_id`.
    pub fn get_for_user(db: &Db, shop_id: u128, user_id: &String) -> (r: Option<SubShop>)
        ensures
            r.deep_view() == find_sub_shop_for_user(db@.sub_shops, shop_id, user_id@),
    {
        let n = db.sub_shops.len();
        for i in 0..n
            invariant
                n == db.sub_shops.len(),
                forall|j: int|
                    0 <= j < i ==> !(db@.sub_shops[j].shop_id == shop_id && db@.sub_shops[j].user_id
                        == user_id@),
        {
            proof {
                assert(db@.sub_shops[i as int] == db.sub_shops@[i as int]@);
            }
            if db.sub_shops[i].shop_id == shop_id && db.sub_shops[i].user_id == *user_id {
                proof {
                    lemma_find_first_hit(
                        db@.sub_shops,
                        |m: SubShopV| m.shop_id == shop_id && m.user_id == user_id@,
                        i as int,
                    );
                }
                return Some(db.sub_shops[i].clone());
            }
        }
        proof {
            lemma_find_first_none(
                db@.sub_shops,
                |m: SubShopV| m.shop_id == shop_id && m.user_id == user_id@,
            );
        }
        None
    }

    /// Removes the cached fact for `shop_id` and returns it.
    ///
    /// Fails with `NotFound` exactly when no such fact is cached; the
    /// state is then unchanged.
    pub fn delete(db: &mut Db, shop_id: u128) -> (r: Result<SubShop, Error>)
        requires
            old(db).wf(),
        ensures
            final(db).wf(),
            final(db)@.medias == old(db)@.medias,
            final(db)@.media_offers == old(db)@.media_offers,
            final(db)@.quotas == old(db)@.quotas,
            final(db)@.media_subscriptions == old(db)@.media_subscriptions,
            final(db)@.sub_offers == old(db)@.sub_offers,
            match r {
                Ok(m) => {
                    &&& find_sub_shop(old(db)@.sub_shops, shop_id) == Some(m@)
                    &&& final(db)@.sub_shops == old(db)@.sub_shops.filter(
                        |m: SubShopV| m.shop_id != shop_id,
                    )
                },
                Err(e) => {
                    &&& e == Error::NotFound
                    &&& find_sub_shop(old(db)@.sub_shops, shop_id) is None
                    &&& final(db)@.sub_shops == old(db)@.sub_shops
                },
            },
    {
        let found = match Self::get_by_shop(db, shop_id) {
            Some(m) => m,
            None => {
                return Err(Error::NotFound);
            },
        };
        let mut out: Vec<SubShop> = Vec::new();
        let n = db.sub_shops.len();
        for i in 0..n
            invariant
                n == db.sub_shops.len(),
                *db == *old(db),
                old(db).wf(),
                out.deep_view() == db@.sub_shops.take(i as int).filter(
                    |m: SubShopV| m.shop_id != shop_id,
                ),
        {
            proof {
                reveal(Seq::filter);
                assert(db@.sub_shops[i as int] == db.sub_shops@[i as int]@);
                assert(db@.sub_shops.take(i + 1).drop_last() =~= db@.sub_shops.take(i as int));
                assert(db@.sub_shops.take(i + 1).last() == db@.sub_shops[i as int]);
            }
            if !(db.sub_shops[i].shop_id == shop_id) {
                let ghost preout = out.deep_view();
                out.push(db.sub_shops[i].clone());
                proof {
                    assert(out.deep_view() =~= preout.push(db@.sub_shops[i as int]));
                }
            }
        }
        proof {
            assert(db@.sub_shops.take(n as int) =~= db@.sub_shops);
        }
        db.sub_shops = out;
        proof {
            let keep = |m: SubShopV| m.shop_id != shop_id;
            let f = old(db)@.sub_shops.filter(keep);
            assert forall|i: int, j: int| 0 <= i < j < f.len() implies f[i].shop_id != f[j].shop_id by {
                crate::model::lemma_filter_pairwise(
                    old(db)@.sub_shops,
                    keep,
                    |a: SubShopV, b: SubShopV| a.shop_id != b.shop_id,
                    i,
                    j,
                );
            }
        }
        Ok(found)
    }

    /// Reads the cached fact for `shop_id` regardless of owner.
    fn get_by_shop(db: &Db, shop_id: u128) -> (r: Option<SubShop>)
        ensures
            r.deep_view() == find_sub_shop(db@.sub_shops, shop_id),
    {
        let n = db.sub_shops.len();
        for i in 0..n
            invariant
                n == db.sub_shops.len(),
                forall|j: int| 0 <= j < i ==> db@.sub_shops[j].shop_id != shop_id,
        {
            proof {
                assert(db@.sub_shops[i as int] == db.sub_shops@[i as int]@);
            }
            if db.sub_shops[i].shop_id == shop_id {
                proof {
                    lemma_find_first_hit(
                        db@.sub_shops,
                        |m: SubShopV| m.shop_id == shop_id,
                        i as int,
                    );
                }
                return Some(db.sub_shops[i].clone());
            }
        }
        proof {
            lemma_find_first_none(db@.sub_shops, |m: SubShopV| m.shop_id == shop_id);
        }
        None
    }
}

} // verus!

