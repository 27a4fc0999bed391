//! The persistent state of the engine, modeled as plain in-memory tables.
//!
//! Each table is a vector of records with a well-formedness invariant
//! (unique keys, bounded sizes). Every operation requires and preserves
//! `Db::wf`. Contracts speak of the mathematical view `Db::view`, whose
//! tables are sequences of abstract records.

use vstd::prelude::*;

pub mod media;
pub mod media_offer;
pub mod media_quota;
pub mod media_subscription;
pub mod sub_offers;
pub mod sub_shops;

use crate::model::media::{Media, MediaV};
use crate::model::media_offer::{MediaOffer, MediaOfferV};
use crate::model::media_quota::{MediaQuota, MediaQuotaV};
use crate::model::media_subscription::{MediaSubscription, MediaSubscriptionV};
use crate::model::sub_offers::{SubOffer, SubOfferV};
use crate::model::sub_shops::{SubShop, SubShopV};

verus! {

/// Finds the first element satisfying `p`, front to back.
pub open spec fn find_first<T>(s: Seq<T>, p: spec_fn(T) -> bool) -> Option<T>
    decreases s.len(),
{
    if s.len() == 0 {
        None
    } else if p(s[0]) {
        Some(s[0])
    } else {
        find_first(s.drop_first(), p)
    }
}

/// `find_first` returns the element at the first matching index.
pub proof fn lemma_find_first_hit<T>(s: Seq<T>, p: spec_fn(T) -> bool, i: int)
    requires
        0 <= i < s.len(),
        p(s[i]),
        forall|j: int| 0 <= j < i ==> !p(s[j]),
    ensures
        find_first(s, p) == Some(s[i]),
    decreases i,
{
    if i == 0 {
    } else {
        assert(forall|j: int| 0 <= j < i - 1 ==> s.drop_first()[j] == s[j + 1]);
        lemma_find_first_hit(s.drop_first(), p, i - 1);
    }
}

/// `find_first` returns `None` when nothing matches.
pub proof fn lemma_find_first_none<T>(s: Seq<T>, p: spec_fn(T) -> bool)
    requires
        forall|j: int| 0 <= j < s.len() ==> !p(s[j]),
    ensures
        find_first(s, p) is None,
    decreases s.len(),
{
    if s.len() > 0 {
        lemma_find_first_none(s.drop_first(), p);
    }
}

/// If any index matches, `find_first` returns `Some`.
pub proof fn lemma_find_first_some<T>(s: Seq<T>, p: spec_fn(T) -> bool, j: int)
    requires
        0 <= j < s.len(),
        p(s[j]),
    ensures
        find_first(s, p) is Some,
    decreases j,
{
    if !p(s[0]) {
        assert(s.drop_first()[j - 1] == s[j]);
        lemma_find_first_some(s.drop_first(), p, j - 1);
    }
}

/// If `find_first` returns `None`, nothing matches.
pub proof fn lemma_find_first_none_converse<T>(s: Seq<T>, p: spec_fn(T) -> bool)
    requires
        find_first(s, p) is None,
    ensures
        forall|j: int| 0 <= j < s.len() ==> !p(s[j]),
    decreases s.len(),
{
    if s.len() > 0 {
        lemma_find_first_none_converse(s.drop_first(), p);
        assert forall|j: int| 0 <= j < s.len() implies !p(s[j]) by {
            if j > 0 {
                assert(s.drop_first()[j - 1] == s[j]);
            }
        }
    }
}

/// Whatever `find_first` returns satisfies `p` and occurs in `s`.
pub proof fn lemma_find_first_sound<T>(s: Seq<T>, p: spec_fn(T) -> bool)
    ensures
        find_first(s, p) matches Some(x) ==> p(x) && s.contains(x),
    decreases s.len(),
{
    if s.len() > 0 && !p(s[0]) {
        lemma_find_first_sound(s.drop_first(), p);
        match find_first(s, p) {
            Some(x) => {
                assert(s.drop_first().contains(x));
                let i = choose|i: int| 0 <= i < s.drop_first().len() && s.drop_first()[i] == x;
                assert(s[i + 1] == x);
            },
            None => {},
        }
    }
}

/// Every element of a filtered sequence occurs in the original.
pub proof fn lemma_filter_element_of<T>(s: Seq<T>, keep: spec_fn(T) -> bool, i: int)
    requires
        0 <= i < s.filter(keep).len(),
    ensures
        exists|k: int| 0 <= k < s.len() && s[k] == s.filter(keep)[i],
    decreases s.len(),
{
    reveal(Seq::filter);
    if s.len() > 0 {
        let f = s.filter(keep);
        if keep(s.last()) && i == f.len() - 1 {
            assert(s[s.len() - 1] == f[i]);
        } else {
            lemma_filter_element_of(s.drop_last(), keep, i);
            let k = choose|k: int|
                0 <= k < s.len() - 1 && s.drop_last()[k] == s.drop_last().filter(keep)[i];
            assert(s[k] == f[i]);
        }
    }
}

/// A pairwise property of the original, ordered by position, carries over
/// to the filtered sequence.
pub proof fn lemma_filter_pairwise<T>(
    s: Seq<T>,
    keep: spec_fn(T) -> bool,
    r: spec_fn(T, T) -> bool,
    i: int,
    j: int,
)
    requires
        0 <= i < j < s.filter(keep).len(),
        forall|a: int, b: int| 0 <= a < b < s.len() ==> #[trigger] r(s[a], s[b]),
    ensures
        r(s.filter(keep)[i], s.filter(keep)[j]),
    decreases s.len(),
{
    reveal(Seq::filter);
    if s.len() > 0 {
        let f = s.filter(keep);
        if keep(s.last()) && j == f.len() - 1 {
            lemma_filter_element_of(s.drop_last(), keep, i);
            let k = choose|k: int|
                0 <= k < s.len() - 1 && s.drop_last()[k] == s.drop_last().filter(keep)[i];
            assert(s[k] == f[i]);
            assert(r(s[k], s[s.len() - 1]));
        } else {
            lemma_filter_pairwise(s.drop_last(), keep, r, i, j);
        }
    }
}

/// The engine's state: every table of the persistent schema.
pub struct Db {
    pub medias: Vec<Media>,
    pub media_offers: Vec<MediaOffer>,
    pub quotas: Vec<MediaQuota>,
    pub media_subscriptions: Vec<MediaSubscription>,
    pub sub_shops: Vec<SubShop>,
    pub sub_offers: Vec<SubOffer>,
}

/// The mathematical view of the state.
#[verifier::ext_equal]
pub struct DbV {
    pub medias: Seq<MediaV>,
    pub media_offers: Seq<MediaOfferV>,
    pub quotas: Seq<MediaQuotaV>,
    pub media_subscriptions: Seq<MediaSubscriptionV>,
    pub sub_shops: Seq<SubShopV>,
    pub sub_offers: Seq<SubOfferV>,
}

impl View for Db {
    type V = DbV;

    open spec fn view(&self) -> DbV {
        DbV {
            medias: self.medias.deep_view(),
            media_offers: self.media_offers.deep_view(),
            quotas: self.quotas.deep_view(),
            media_subscriptions: self.media_subscriptions.deep_view(),
            sub_shops: self.sub_shops.deep_view(),
            sub_offers: self.sub_offers.deep_view(),
        }
    }
}

impl Db {
    /// Key uniqueness and size bounds of every table.
    pub open spec fn wf(self) -> bool {
        &&& media::medias_wf(self@.medias)
        &&& media_offer::media_offers_wf(self@.media_offers)
        &&& media_quota::quotas_wf(self@.quotas)
        &&& media_subscription::subscriptions_wf(self@.media_subscriptions)
        &&& sub_shops::sub_shops_wf(self@.sub_shops)
        &&& sub_offers::sub_offers_wf(self@.sub_offers)
    }

    /// An empty state: no assets, associations, quotas or cached facts.
    pub fn new() -> (db: Db)
        ensures
            db.wf(),
            db@.medias =~= Seq::<MediaV>::empty(),
            db@.media_offers =~= Seq::<MediaOfferV>::empty(),
            db@.quotas =~= Seq::<MediaQuotaV>::empty(),
            db@.media_subscriptions =~= Seq::<MediaSubscriptionV>::empty(),
            db@.sub_shops =~= Seq::<SubShopV>::empty(),
            db@.sub_offers =~= Seq::<SubOfferV>::empty(),
    {
        Db {
            medias: Vec::new(),
            media_offers: Vec::new(),
            quotas: Vec::new(),
            media_subscriptions: Vec::new(),
            sub_shops: Vec::new(),
            sub_offers: Vec::new(),
        }
    }
}

} // verus!
