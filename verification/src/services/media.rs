//! The asset service: uploads under quota, asset reads and updates, and
//! the dense ordering of asset/offer associations.

use vstd::prelude::*;

use crate::files::{find_object, find_upload, upserted_objects, FileService, Part};
use crate::ids::{uuid_format, uuid_new_v4, uuid_of, uuid_str_of};
use crate::clock::now_unix_ts;
use crate::model::media::{find_media, find_media_for_owner, total_size, Media, MediaV};
use crate::model::media_offer::{find_media_offer, highest_ordering_of, reorder_one,
    MediaOffer, MediaOfferV};
use crate::model::media_subscription::page;
use crate::model::sub_offers::{find_sub_offer_for_owner, SubOffer};
use crate::model::sub_shops::{find_sub_shop_for_user, SubShop};
use crate::model::{lemma_find_first_none_converse, Db, DbV};
use crate::quota::{effective_ceiling_mib, ensured_quotas, QuotaService, MIB};
use crate::services::{parse_uuid, PaginationRequest, PaginationResponse};
use crate::Error;

verus! {

/// A whole-object payload: content type and bytes.
#[derive(Debug)]
pub struct MediaUpload {
    pub content_type: String,
    pub data: Vec<u8>,
}

/// An asset as returned to callers: identifiers as UUID strings,
/// timestamps in UNIX seconds, and the offers the asset is attached to.
#[derive(Debug)]
pub struct MediaResponse {
    pub media_id: String,
    pub offer_ids: Vec<String>,
    pub shop_id: String,
    pub user_id: String,
    pub created_at: i64,
    pub updated_at: i64,
    pub name: String,
    pub file_name: String,
    pub ordering: i64,
}

/// The associations of one asset, in table order.
pub open spec fn assocs_of(s: Seq<MediaOfferV>, media_id: u128) -> Seq<MediaOfferV> {
    s.filter(|mo: MediaOfferV| mo.media_id == media_id)
}

/// The asset service.
pub struct MediaService {
    pub file_service: FileService,
    pub quota_service: QuotaService,
}

impl MediaService {
    /// The store and the ledger are well-formed.
    pub open spec fn wf(self) -> bool {
        &&& self.file_service.wf()
        &&& self.quota_service.wf()
    }

    pub fn build(file_service: FileService, quota_service: QuotaService) -> (s: Self)
        requires
            file_service.wf(),
            quota_service.wf(),
        ensures
            s.wf(),
            s.file_service == file_service,
            s.quota_service == quota_service,
    {
        MediaService { file_service, quota_service }
    }

    /// The storage key of an asset: owner, shop and asset identifiers,
    /// slash-separated.
    pub fn build_file_path(user_id: &String, shop_id: u128, media_id: u128) -> (r: String)
        ensures
            r@ == user_id@ + "/"@ + uuid_str_of(shop_id) + "/"@ + uuid_str_of(media_id),
    {
        let mut s = user_id.clone();
        s.append("/");
        let shop = uuid_format(shop_id);
        s.append(shop.as_str());
        s.append("/");
        let media = uuid_format(media_id);
        s.append(media.as_str());
        s
    }

    /// Converts an asset row to its response, joining in the offers it is
    /// attached to; the response's ordering is the first association's.
    pub fn to_response(db: &Db, media: &Media) -> (r: MediaResponse)
        ensures
            r.media_id@ == uuid_str_of(media@.media_id),
            r.shop_id@ == uuid_str_of(media@.shop_id),
            r.user_id@ == media@.user_id,
            r.created_at == media@.created_at,
            r.updated_at == media@.updated_at,
            r.name@ == media@.name,
            r.file_name@ == media@.file_name,
            r.offer_ids.deep_view() == assocs_of(db@.media_offers, media@.media_id).map_values(
                |mo: MediaOfferV| uuid_str_of(mo.offer_id),
            ),
            r.ordering == ({
                let a = assocs_of(db@.media_offers, media@.media_id);
                if a.len() > 0 {
                    a[0].ordering
                } else {
                    0int
                }
            }),
    {
        let media_id = media.media_id;
        let mut offer_ids: Vec<String> = Vec::new();
        let mut first_ordering: Option<i64> = None;
        let n = db.media_offers.len();
        for i in 0..n
            invariant
                n == db.media_offers.len(),
                media_id == media.media_id,
                offer_ids.deep_view() == db@.media_offers.take(i as int).filter(
                    |mo: MediaOfferV| mo.media_id == media_id,
                ).map_values(|mo: MediaOfferV| uuid_str_of(mo.offer_id)),
                match first_ordering {
                    None => db@.media_offers.take(i as int).filter(
                        |mo: MediaOfferV| mo.media_id == media_id,
                    ).len() == 0,
                    Some(o) => ({
                        let a = db@.media_offers.take(i as int).filter(
                            |mo: MediaOfferV| mo.media_id == media_id,
                        );
                        a.len() > 0 && a[0].ordering == o
                    }),
                },
        {
            proof {
                reveal(Seq::filter);
                assert(db@.media_offers[i as int] == db.media_offers@[i as int]@);
                assert(db@.media_offers.take(i + 1).drop_last() =~= db@.media_offers.take(i as int));
                assert(db@.media_offers.take(i + 1).last() == db@.media_offers[i as int]);
            }
            if db.media_offers[i].media_id == media_id {
                let ghost prefiltered = db@.media_offers.take(i as int).filter(
                    |mo: MediaOfferV| mo.media_id == media_id,
                );
                let ghost preout = offer_ids.deep_view();
                offer_ids.push(uuid_format(db.media_offers[i].offer_id));
                if first_ordering.is_none() {
                    first_ordering = Some(db.media_offers[i].ordering);
                }
                proof {
                    assert(db@.media_offers.take(i + 1).filter(
                        |mo: MediaOfferV| mo.media_id == media_id,
                    ) =~= prefiltered.push(db@.media_offers[i as int]));
                    assert(offer_ids.deep_view() =~= preout.push(
                        uuid_str_of(db@.media_offers[i as int].offer_id),
                    ));
                    assert(db@.media_offers.take(i + 1).filter(
                        |mo: MediaOfferV| mo.media_id == media_id,
                    ).map_values(|mo: MediaOfferV| uuid_str_of(mo.offer_id)) =~= prefiltered.map_values(
                        |mo: MediaOfferV| uuid_str_of(mo.offer_id),
                    ).push(uuid_str_of(db@.media_offers[i as int].offer_id)));
                }
            }
        }
        proof {
            assert(db@.media_offers.take(n as int) =~= db@.media_offers);
        }
        let ordering = match first_ordering {
            Some(o) => o,
            None => 0,
        };
        MediaResponse {
            media_id: uuid_format(media.media_id),
            offer_ids,
            shop_id: uuid_format(media.shop_id),
            user_id: media.user_id.clone(),
            created_at: media.created_at,
            updated_at: media.updated_at,
            name: media.name.clone(),
            file_name: media.file_name.clone(),
            ordering,
        }
    }

    /// Reads an asset owned by the caller.
    ///
    /// Fails with `InvalidArgument` on a malformed identifier and with
    /// `NotFound` exactly when the caller owns no such asset.
    pub fn get_media(&self, db: &Db, user_id: &String, media_id: &String) -> (r: Result<
        MediaResponse,
        Error,
    >)
        ensures
            match r {
                Ok(resp) => ({
                    &&& uuid_of(media_id@) matches Some(id)
                    &&& find_media_for_owner(db@.medias, id, user_id@) matches Some(m)
                    &&& response_matches(resp, m, db@)
                }),
                Err(e) => match uuid_of(media_id@) {
                    None => e == Error::InvalidArgument,
                    Some(id) => e == Error::NotFound && find_media_for_owner(
                        db@.medias,
                        id,
                        user_id@,
                    ) is None,
                },
            },
    {
        let id = parse_uuid(media_id.as_str())?;
        let found = match Media::get_for_owner(db, id, user_id) {
            Some(m) => m,
            None => {
                return Err(Error::NotFound);
            },
        };
        Ok(Self::to_response(db, &found))
    }

    /// Attaches an asset to an offer the caller owns, appending it after
    /// the offer's highest ordering unless an explicit one is given.
    ///
    /// Fails with `InvalidArgument` on malformed identifiers, `NotFound`
    /// when the caller owns neither the offer nor the asset, and
    /// `Internal` on an ordering overflow or an existing association.
    pub fn add_media_to_offer(
        &self,
        db: &mut Db,
        user_id: &String,
        media_id: &String,
        offer_id: &String,
        ordering: Option<i64>,
    ) -> (r: Result<(), Error>)
        requires
            old(db).wf(),
        ensures
            final(db).wf(),
            r is Err ==> final(db)@ == old(db)@,
            match r {
                Ok(()) => ({
                    &&& uuid_of(media_id@) matches Some(mid)
                    &&& uuid_of(offer_id@) matches Some(oid)
                    &&& Self::attach_ok(old(db)@.media_offers, final(db)@.media_offers, *old(db),
                        mid, oid, user_id@, ordering)
                    &&& final(db)@.medias == old(db)@.medias
                    &&& final(db)@.quotas == old(db)@.quotas
                    &&& final(db)@.media_subscriptions == old(db)@.media_subscriptions
                    &&& final(db)@.sub_shops == old(db)@.sub_shops
                    &&& final(db)@.sub_offers == old(db)@.sub_offers
                }),
                Err(e) => match (uuid_of(media_id@), uuid_of(offer_id@)) {
                    (Some(mid), Some(oid)) => ({
                        let offer_owned = find_sub_offer_for_owner(
                            old(db)@.sub_offers,
                            oid,
                            user_id@,
                        ) is Some;
                        let media_owned = find_media_for_owner(
                            old(db)@.medias,
                            mid,
                            user_id@,
                        ) is Some;
                        if !offer_owned || !media_owned {
                            e == Error::NotFound
                        } else {
                            e == Error::Internal && (ordering is None && highest_ordering_of(
                                old(db)@.media_offers,
                                oid,
                                user_id@,
                            ) == i64::MAX || find_media_offer(
                                old(db)@.media_offers,
                                mid,
                                oid,
                            ) is Some)
                        }
                    }),
                    _ => e == Error::InvalidArgument,
                },
            },
    {
        let mid = parse_uuid(media_id.as_str())?;
        let oid = parse_uuid(offer_id.as_str())?;
        Self::apply_attach(db, user_id, mid, oid, ordering)
    }

    /// What a successful attach did: the association table grew by one row
    /// for the caller's offer, ordered as requested or appended past the
    /// highest existing ordering.
    pub open spec fn attach_ok(
        pre: Seq<MediaOfferV>,
        post: Seq<MediaOfferV>,
        predb: Db,
        media_id: u128,
        offer_id: u128,
        user_id: Seq<char>,
        ordering: Option<i64>,
    ) -> bool {
        let ord = match ordering {
            Some(o) => o as int,
            None => highest_ordering_of(pre, offer_id, user_id) + 1,
        };
        &&& find_sub_offer_for_owner(predb@.sub_offers, offer_id, user_id) is Some
        &&& find_media_for_owner(predb@.medias, media_id, user_id) is Some
        &&& find_media_offer(pre, media_id, offer_id) is None
        &&& post == pre.push(MediaOfferV { media_id, offer_id, user_id, ordering: ord })
    }

    /// The attach on parsed identifiers, with its exact error order: the
    /// offer is checked first, then the asset, then the fresh ordering,
    /// then the association's key constraint.
    pub fn apply_attach(
        db: &mut Db,
        user_id: &String,
        media_id: u128,
        offer_id: u128,
        ordering: Option<i64>,
    ) -> (r: Result<(), Error>)
        requires
            old(db).wf(),
        ensures
            final(db).wf(),
            r is Err ==> final(db)@ == old(db)@,
            match r {
                Ok(()) => Self::attach_ok(old(db)@.media_offers, final(db)@.media_offers, *old(db),
                media_id, offer_id, user_id@, ordering) && final(db)@.medias == old(db)@.medias
                    && final(db)@.quotas == old(db)@.quotas && final(db)@.media_subscriptions
                    == old(db)@.media_subscriptions && final(db)@.sub_shops == old(db)@.sub_shops
                    && final(db)@.sub_offers == old(db)@.sub_offers,
                Err(e) => {
                    let offer_owned = find_sub_offer_for_owner(
                        old(db)@.sub_offers,
                        offer_id,
                        user_id@,
                    ) is Some;
                    let media_owned = find_media_for_owner(
                        old(db)@.medias,
                        media_id,
                        user_id@,
                    ) is Some;
                    if !offer_owned || !media_owned {
                        e == Error::NotFound
                    } else {
                        e == Error::Internal && (ordering is None && highest_ordering_of(
                            old(db)@.media_offers,
                            offer_id,
                            user_id@,
                        ) == i64::MAX || find_media_offer(
                            old(db)@.media_offers,
                            media_id,
                            offer_id,
                        ) is Some)
                    }
                },
            },
    {
        if SubOffer::get_for_owner(db, offer_id, user_id).is_none() {
            return Err(Error::NotFound);
        }
        if Media::get_for_owner(db, media_id, user_id).is_none() {
            return Err(Error::NotFound);
        }
        let ord: i64 = match ordering {
            Some(o) => o,
            None => {
                let highest = MediaOffer::get_highest_ordering(db, offer_id, user_id);
                if highest == i64::MAX {
                    return Err(Error::Internal);
                }
                highest + 1
            },
        };
        MediaOffer::create(db, media_id, offer_id, user_id, ord)
    }

    /// Moves an association of the caller's offer to a new ordering,
    /// shifting the rows between the two positions by one — a single
    /// logical unit of work over the whole association table.
    ///
    /// Fails with `InvalidArgument` on malformed identifiers and with
    /// `NotFound` exactly when no such association exists.
    pub fn update_media_offer_ordering(
        &self,
        db: &mut Db,
        user_id: &String,
        media_id: &String,
        offer_id: &String,
        ordering: i64,
    ) -> (r: Result<(), Error>)
        requires
            old(db).wf(),
        ensures
            final(db).wf(),
            r is Err ==> final(db)@ == old(db)@,
            match r {
                Ok(()) => ({
                    &&& uuid_of(media_id@) matches Some(mid)
                    &&& uuid_of(offer_id@) matches Some(oid)
                    &&& Self::reorder_ok(old(db)@.media_offers, final(db)@.media_offers, mid, oid,
                        user_id@, ordering as int)
                    &&& final(db)@.medias == old(db)@.medias
                    &&& final(db)@.quotas == old(db)@.quotas
                    &&& final(db)@.media_subscriptions == old(db)@.media_subscriptions
                    &&& final(db)@.sub_shops == old(db)@.sub_shops
                    &&& final(db)@.sub_offers == old(db)@.sub_offers
                }),
                Err(e) => match (uuid_of(media_id@), uuid_of(offer_id@)) {
                    (Some(mid), Some(oid)) => e == Error::NotFound && find_media_offer(
                        old(db)@.media_offers,
                        mid,
                        oid,
                    ) is None,
                    _ => e == Error::InvalidArgument,
                },
            },
    {
        let mid = parse_uuid(media_id.as_str())?;
        let oid = parse_uuid(offer_id.as_str())?;
        Self::apply_reorder(db, user_id, mid, oid, ordering)
    }

    /// What a successful reorder did: every row of the association table
    /// was rewritten by `reorder_one` around the target's old ordering.
    pub open spec fn reorder_ok(
        pre: Seq<MediaOfferV>,
        post: Seq<MediaOfferV>,
        media_id: u128,
        offer_id: u128,
        user_id: Seq<char>,
        new_ord: int,
    ) -> bool {
        &&& find_media_offer(pre, media_id, offer_id) matches Some(t) && post == pre.map_values(
            |m: MediaOfferV| reorder_one(m, media_id, offer_id, user_id, t.ordering, new_ord),
        )
    }

    /// The reorder on parsed identifiers.
    pub fn apply_reorder(
        db: &mut Db,
        user_id: &String,
        media_id: u128,
        offer_id: u128,
        ordering: i64,
    ) -> (r: Result<(), Error>)
        requires
            old(db).wf(),
        ensures
            final(db).wf(),
            r is Err ==> final(db)@ == old(db)@,
            match r {
                Ok(()) => Self::reorder_ok(old(db)@.media_offers, final(db)@.media_offers, media_id,
                offer_id, user_id@, ordering as int) && final(db)@.medias == old(db)@.medias
                    && final(db)@.quotas == old(db)@.quotas && final(db)@.media_subscriptions
                    == old(db)@.media_subscriptions && final(db)@.sub_shops == old(db)@.sub_shops
                    && final(db)@.sub_offers == old(db)@.sub_offers,
                Err(e) => e == Error::NotFound && find_media_offer(
                    old(db)@.media_offers,
                    media_id,
                    offer_id,
                ) is None,
            },
    {
        let target = match MediaOffer::get(db, media_id, offer_id) {
            Some(t) => t,
            None => {
                return Err(Error::NotFound);
            },
        };
        let old_ordering = target.ordering;
        let ghost pre = db@.media_offers;
        let ghost f = |m: MediaOfferV| reorder_one(
            m,
            media_id,
            offer_id,
            user_id@,
            old_ordering as int,
            ordering as int,
        );
        let mut out: Vec<MediaOffer> = Vec::new();
        let n = db.media_offers.len();
        for i in 0..n
            invariant
                n == db.media_offers.len(),
                *db == *old(db),
                old(db).wf(),
                out.deep_view() == db@.media_offers.take(i as int).map_values(
                    |m: MediaOfferV| reorder_one(
                        m,
                        media_id,
                        offer_id,
                        user_id@,
                        old_ordering as int,
                        ordering as int,
                    ),
                ),
        {
            proof {
                assert(db@.media_offers[i as int] == db.media_offers@[i as int]@);
                assert(db@.media_offers.take(i + 1) =~= db@.media_offers.take(i as int).push(
                    db@.media_offers[i as int],
                ));
            }
            let ghost preout = out.deep_view();
            let mut m = db.media_offers[i].clone();
            if m.offer_id == offer_id && m.user_id == *user_id {
                if m.media_id == media_id {
                    m.ordering = ordering;
                } else if old_ordering < ordering && old_ordering < m.ordering && m.ordering
                    <= ordering {
                    m.ordering = m.ordering - 1;
                } else if ordering < old_ordering && ordering <= m.ordering && m.ordering
                    < old_ordering {
                    m.ordering = m.ordering + 1;
                }
            }
            proof {
                assert(m@ =~~= reorder_one(
                    db@.media_offers[i as int],
                    media_id,
                    offer_id,
                    user_id@,
                    old_ordering as int,
                    ordering as int,
                ));
            }
            out.push(m);
            proof {
                assert(out.deep_view() =~= preout.push(
                    reorder_one(
                        db@.media_offers[i as int],
                        media_id,
                        offer_id,
                        user_id@,
                        old_ordering as int,
                        ordering as int,
                    ),
                ));
                assert(db@.media_offers.take(i + 1).map_values(
                    |m: MediaOfferV| reorder_one(
                        m,
                        media_id,
                        offer_id,
                        user_id@,
                        old_ordering as int,
                        ordering as int,
                    ),
                ) =~= db@.media_offers.take(i as int).map_values(
                    |m: MediaOfferV| reorder_one(
                        m,
                        media_id,
                        offer_id,
                        user_id@,
                        old_ordering as int,
                        ordering as int,
                    ),
                ).push(
                    reorder_one(
                        db@.media_offers[i as int],
                        media_id,
                        offer_id,
                        user_id@,
                        old_ordering as int,
                        ordering as int,
                    ),
                ));
            }
        }
        proof {
            assert(db@.media_offers.take(n as int) =~= db@.media_offers);
        }
        db.media_offers = out;
        proof {
            let post = pre.map_values(f);
            assert(db@.media_offers == post);
            assert forall|j: int|
                0 <= j < post.len() implies #[trigger] post[j].media_id == pre[j].media_id by {
                assert(post[j] == f(pre[j]));
            }
            assert forall|j: int|
                0 <= j < post.len() implies #[trigger] post[j].offer_id == pre[j].offer_id by {
                assert(post[j] == f(pre[j]));
            }
            assert forall|j: int|
                0 <= j < post.len() implies i64::MIN <= #[trigger] post[j].ordering <= i64::MAX by {
                assert(post[j] == f(pre[j]));
                assert(i64::MIN <= pre[j].ordering <= i64::MAX);
            }
            crate::model::media_offer::lemma_pointwise_keys_keep_wf(pre, post);
        }
        Ok(())
    }

    /// Detaches an asset from an offer; the remaining orderings are not
    /// compacted, and detaching an absent association is a no-op.
    ///
    /// Fails with `InvalidArgument` exactly on malformed identifiers.
    pub fn remove_media_from_offer(
        &self,
        db: &mut Db,
        user_id: &String,
        media_id: &String,
        offer_id: &String,
    ) -> (r: Result<(), Error>)
        requires
            old(db).wf(),
        ensures
            final(db).wf(),
            r is Err ==> final(db)@ == old(db)@,
            match r {
                Ok(()) => ({
                    &&& uuid_of(media_id@) matches Some(mid)
                    &&& uuid_of(offer_id@) matches Some(oid)
                    &&& final(db)@.media_offers == old(db)@.media_offers.filter(
                        |m: MediaOfferV| !(m.media_id == mid && m.offer_id == oid && m.user_id
                            == user_id@),
                    )
                    &&& final(db)@.medias == old(db)@.medias
                    &&& final(db)@.quotas == old(db)@.quotas
                    &&& final(db)@.media_subscriptions == old(db)@.media_subscriptions
                    &&& final(db)@.sub_shops == old(db)@.sub_shops
                    &&& final(db)@.sub_offers == old(db)@.sub_offers
                }),
                Err(e) => e == Error::InvalidArgument && (uuid_of(media_id@) is None || uuid_of(
                    offer_id@,
                ) is None),
            },
    {
        let mid = parse_uuid(media_id.as_str())?;
        let oid = parse_uuid(offer_id.as_str())?;
        MediaOffer::delete(db, mid, oid, user_id);
        Ok(())
    }
}


/// The asset table after a chunk was recorded: the owned asset's size grew
/// by the chunk's length.
pub open spec fn medias_with_added_size(
    s: Seq<MediaV>,
    media_id: u128,
    user_id: Seq<char>,
    add: int,
) -> Seq<MediaV> {
    s.map_values(
        |m: MediaV|
            if m.media_id == media_id && m.user_id == user_id {
                MediaV { size_bytes: m.size_bytes + add, ..m }
            } else {
                m
            },
    )
}

/// Whether the user's stored bytes fit under the user's effective ceiling.
pub open spec fn quota_ok_for(
    medias: Seq<MediaV>,
    quotas: Seq<crate::model::media_quota::MediaQuotaV>,
    user_id: Seq<char>,
    default_mib: int,
) -> bool {
    total_size(medias, user_id) <= effective_ceiling_mib(quotas, user_id, default_mib) * MIB as int
}

impl MediaService {
    /// Creates an asset under a fresh identity: persists the record and,
    /// when a payload is given, writes the object — the record before the
    /// object, as one logical unit of work.
    ///
    /// Fails with `InvalidArgument` on a malformed shop identifier, with
    /// `QuotaExceeded` when the caller's stored bytes already exceed the
    /// ceiling, with `NotFound` when the caller does not own the shop, and
    /// with `Internal` on an oversized payload or an identity collision.
    pub fn create_media(
        &mut self,
        db: &mut Db,
        user_id: &String,
        shop_id: &String,
        name: &String,
        file: Option<&MediaUpload>,
        file_name: &String,
    ) -> (r: Result<MediaResponse, Error>)
        requires
            old(db).wf(),
            old(self).wf(),
        ensures
            final(db).wf(),
            final(self).wf(),
            final(self).quota_service == old(self).quota_service,
            match r {
                Ok(resp) => ({
                    &&& uuid_of(shop_id@) matches Some(sid)
                    &&& quota_ok_for(old(db)@.medias, old(db)@.quotas, user_id@, old(self).quota_service.default_user_quota_mib as int)
                    &&& find_sub_shop_for_user(old(db)@.sub_shops, sid, user_id@) is Some
                    &&& final(db)@.medias.len() == old(db)@.medias.len() + 1
                    &&& ({
                        let m = final(db)@.medias.last();
                        &&& final(db)@.medias == old(db)@.medias.push(m)
                        &&& m.shop_id == sid
                        &&& m.user_id == user_id@
                        &&& m.name == name@
                        &&& m.file_name == file_name@
                        &&& m.size_bytes == (match file {
                            Some(f) => f.data@.len() as int,
                            None => 0int,
                        })
                        &&& resp.media_id@ == uuid_str_of(m.media_id)
                        &&& match file {
                            Some(f) => final(self).file_service@.objects == upserted_objects(
                                old(self).file_service@.objects,
                                m.data_url,
                                f.data@,
                                f.content_type@,
                            ),
                            None => final(self).file_service@.objects == old(self).file_service@.objects,
                        }
                    })
                    &&& final(self).file_service@.uploads == old(self).file_service@.uploads
                }),
                Err(e) => ({
                    &&& final(db)@.medias == old(db)@.medias
                    &&& final(self).file_service@ == old(self).file_service@
                    &&& match uuid_of(shop_id@) {
                        None => e == Error::InvalidArgument && final(db)@ == old(db)@,
                        Some(sid) => {
                            let default = old(self).quota_service.default_user_quota_mib as int;
                            &&& final(db)@.quotas == ensured_quotas(
                                old(db)@.quotas,
                                user_id@,
                                default,
                            )
                            &&& if !quota_ok_for(old(db)@.medias, old(db)@.quotas, user_id@,
                            default) {
                                e == Error::QuotaExceeded
                            } else if find_sub_shop_for_user(
                                old(db)@.sub_shops,
                                sid,
                                user_id@,
                            ) is None {
                                e == Error::NotFound
                            } else {
                                e == Error::Internal
                            }
                        },
                    }
                }),
            },
    {
        let sid = match parse_uuid(shop_id.as_str()) {
            Ok(v) => v,
            Err(e) => {
                return Err(e);
            },
        };
        let media_id = uuid_new_v4();
        let now = now_unix_ts();
        let created = Self::create_media_with_id(
            &mut self.file_service,
            &self.quota_service,
            db,
            user_id,
            sid,
            media_id,
            now,
            name,
            file,
            file_name,
        )?;
        Ok(Self::to_response(db, &created))
    }

    /// The creation on a given identity and clock reading, with its exact
    /// error order: quota first, then shop ownership, then the payload
    /// size, then the identity's key constraint.
    #[allow(clippy::too_many_arguments)]
    pub fn create_media_with_id(
        files: &mut FileService,
        quota_service: &QuotaService,
        db: &mut Db,
        user_id: &String,
        shop_id: u128,
        media_id: u128,
        now: i64,
        name: &String,
        file: Option<&MediaUpload>,
        file_name: &String,
    ) -> (r: Result<Media, Error>)
        requires
            old(db).wf(),
            old(files).wf(),
            quota_service.wf(),
        ensures
            final(db).wf(),
            final(files).wf(),
            final(db)@.media_offers == old(db)@.media_offers,
            final(db)@.media_subscriptions == old(db)@.media_subscriptions,
            final(db)@.sub_shops == old(db)@.sub_shops,
            final(db)@.sub_offers == old(db)@.sub_offers,
            final(db)@.quotas == ensured_quotas(
                old(db)@.quotas,
                user_id@,
                quota_service.default_user_quota_mib as int,
            ),
            final(files)@.uploads == old(files)@.uploads,
            final(files)@.next_upload_id == old(files)@.next_upload_id,
            final(files)@.bucket_name == old(files)@.bucket_name,
            match r {
                Ok(m) => ({
                    let quota_fine = quota_ok_for(old(db)@.medias, old(db)@.quotas, user_id@,
                    quota_service.default_user_quota_mib as int);
                    &&& quota_fine
                    &&& find_sub_shop_for_user(old(db)@.sub_shops, shop_id, user_id@) is Some
                    &&& match file {
                        Some(f) => f.data@.len() <= i64::MAX,
                        None => true,
                    }
                    &&& find_media(old(db)@.medias, media_id) is None
                    &&& m@ == (MediaV {
                        media_id,
                        shop_id,
                        user_id: user_id@,
                        created_at: now as int,
                        updated_at: now as int,
                        name: name@,
                        data_url: user_id@ + "/"@ + uuid_str_of(shop_id) + "/"@ + uuid_str_of(
                            media_id,
                        ),
                        size_bytes: match file {
                            Some(f) => f.data@.len() as int,
                            None => 0int,
                        },
                        file_name: file_name@,
                    })
                    &&& final(db)@.medias == old(db)@.medias.push(m@)
                    &&& match file {
                        Some(f) => final(files)@.objects == upserted_objects(
                            old(files)@.objects,
                            m@.data_url,
                            f.data@,
                            f.content_type@,
                        ),
                        None => final(files)@.objects == old(files)@.objects,
                    }
                }),
                Err(e) => ({
                    let quota_fine = quota_ok_for(old(db)@.medias, old(db)@.quotas, user_id@,
                    quota_service.default_user_quota_mib as int);
                    &&& final(db)@.medias == old(db)@.medias
                    &&& final(files)@.objects == old(files)@.objects
                    &&& if !quota_fine {
                        e == Error::QuotaExceeded
                    } else if find_sub_shop_for_user(
                        old(db)@.sub_shops,
                        shop_id,
                        user_id@,
                    ) is None {
                        e == Error::NotFound
                    } else {
                        e == Error::Internal && (match file {
                            Some(f) => f.data@.len() > i64::MAX,
                            None => false,
                        } || find_media(old(db)@.medias, media_id) is Some)
                    }
                }),
            },
    {
        quota_service.check_quota(db, user_id)?;
        if SubShop::get_for_user(db, shop_id, user_id).is_none() {
            return Err(Error::NotFound);
        }
        let file_path = Self::build_file_path(user_id, shop_id, media_id);
        let size: i64 = match file {
            Some(f) => {
                if f.data.len() as u64 > i64::MAX as u64 {
                    return Err(Error::Internal);
                }
                f.data.len() as i64
            },
            None => 0,
        };
        let created = Media::create(
            db,
            media_id,
            shop_id,
            user_id,
            name,
            &file_path,
            size,
            file_name,
            now,
        )?;
        if let Some(f) = file {
            let _ = files.put_file(&created.data_url, &f.data, &f.content_type);
        }
        Ok(created)
    }

    /// Opens a multipart upload for an owned asset, after an advisory
    /// quota check.
    ///
    /// Fails with `InvalidArgument` on a malformed identifier, with
    /// `QuotaExceeded` when the caller's stored bytes already exceed the
    /// ceiling, with `NotFound` when the caller owns no such asset, and
    /// with `Transient` when the store cannot open an upload.
    pub fn initiate_multipart_upload(
        &mut self,
        db: &mut Db,
        user_id: &String,
        media_id: &String,
        content_type: &String,
    ) -> (r: Result<(String, u64), Error>)
        requires
            old(db).wf(),
            old(self).wf(),
        ensures
            final(db).wf(),
            final(self).wf(),
            final(self).quota_service == old(self).quota_service,
            final(db)@.medias == old(db)@.medias,
            final(db)@.media_offers == old(db)@.media_offers,
            final(db)@.media_subscriptions == old(db)@.media_subscriptions,
            final(db)@.sub_shops == old(db)@.sub_shops,
            final(db)@.sub_offers == old(db)@.sub_offers,
            final(self).file_service@.objects == old(self).file_service@.objects,
            match r {
                Ok((key, upload_id)) => ({
                    let default = old(self).quota_service.default_user_quota_mib as int;
                    &&& uuid_of(media_id@) matches Some(mid)
                    &&& quota_ok_for(old(db)@.medias, old(db)@.quotas, user_id@, default)
                    &&& find_media_for_owner(old(db)@.medias, mid, user_id@) matches Some(m)
                        && key@ == m.data_url && final(self).file_service@.uploads == old(self).file_service@.uploads.push(
                        crate::files::MultipartUploadV {
                            upload_id,
                            key: m.data_url,
                            content_type: content_type@,
                            parts: Seq::empty(),
                        },
                    )
                    &&& upload_id == old(self).file_service@.next_upload_id
                }),
                Err(e) => ({
                    &&& final(self).file_service@.uploads == old(self).file_service@.uploads
                    &&& match uuid_of(media_id@) {
                        None => e == Error::InvalidArgument && final(db)@ == old(db)@,
                        Some(mid) => {
                            let default = old(self).quota_service.default_user_quota_mib as int;
                            &&& final(db)@.quotas == ensured_quotas(
                                old(db)@.quotas,
                                user_id@,
                                default,
                            )
                            &&& if !quota_ok_for(old(db)@.medias, old(db)@.quotas, user_id@,
                            default) {
                                e == Error::QuotaExceeded
                            } else if find_media_for_owner(
                                old(db)@.medias,
                                mid,
                                user_id@,
                            ) is None {
                                e == Error::NotFound
                            } else {
                                e == Error::Transient && old(self).file_service@.next_upload_id
                                    == u64::MAX
                            }
                        },
                    }
                }),
            },
    {
        let mid = match parse_uuid(media_id.as_str()) {
            Ok(v) => v,
            Err(e) => {
                return Err(e);
            },
        };
        self.quota_service.check_quota(db, user_id)?;
        let found = match Media::get_for_owner(db, mid, user_id) {
            Some(m) => m,
            None => {
                return Err(Error::NotFound);
            },
        };
        let upload_id = self.file_service.initiate_multipart_upload(
            &found.data_url,
            content_type,
        )?;
        Ok((found.data_url, upload_id))
    }

    /// Records a chunk against the owned asset's size, re-checks the
    /// quota, and only then forwards the chunk to the store. A quota
    /// breach triggers the compensating cleanup — the upload is aborted at
    /// the store and the asset record deleted — before `QuotaExceeded` is
    /// returned, so no orphaned object and no dangling size survive.
    ///
    /// Fails with `InvalidArgument` on a malformed identifier or an
    /// out-of-range part number, `NotFound` when the caller owns no such
    /// asset, `Internal` when the recorded size would leave its column's
    /// range, and `Transient` when no such upload is open at the store.
    pub fn put_multipart_chunk(
        &mut self,
        db: &mut Db,
        user_id: &String,
        media_id: &String,
        upload_id: u64,
        part_number: u32,
        chunk: &Vec<u8>,
    ) -> (r: Result<Part, Error>)
        requires
            old(db).wf(),
            old(self).wf(),
        ensures
            final(db).wf(),
            final(self).wf(),
            final(self).quota_service == old(self).quota_service,
            final(db)@.media_offers == old(db)@.media_offers,
            final(db)@.media_subscriptions == old(db)@.media_subscriptions,
            final(db)@.sub_shops == old(db)@.sub_shops,
            final(db)@.sub_offers == old(db)@.sub_offers,
            final(self).file_service@.objects == old(self).file_service@.objects,
            match r {
                Ok(part) => ({
                    let default = old(self).quota_service.default_user_quota_mib as int;
                    &&& uuid_of(media_id@) matches Some(mid)
                    &&& chunk@.len() <= i64::MAX
                    &&& find_media_for_owner(old(db)@.medias, mid, user_id@) matches Some(pre_m)
                        && pre_m.size_bytes + chunk@.len() <= i64::MAX && ({
                        let added = medias_with_added_size(
                            old(db)@.medias,
                            mid,
                            user_id@,
                            chunk@.len() as int,
                        );
                        &&& final(db)@.medias == added
                        &&& quota_ok_for(added, old(db)@.quotas, user_id@, default)
                        &&& find_upload(
                            old(self).file_service@.uploads,
                            upload_id,
                            pre_m.data_url,
                        ) is Some
                        &&& final(self).file_service@.uploads
                            == crate::files::upserted_uploads(
                            old(self).file_service@.uploads,
                            upload_id,
                            pre_m.data_url,
                            part_number,
                            chunk@,
                            crate::text::dec_digits(part_number as int),
                        )
                    })
                    &&& part_number <= i32::MAX as u32
                    &&& part.part_number == part_number
                    &&& part.etag@ == crate::text::dec_digits(part_number as int)
                    &&& final(db)@.quotas == ensured_quotas(old(db)@.quotas, user_id@, default)
                }),
                Err(e) => ({
                    let default = old(self).quota_service.default_user_quota_mib as int;
                    match uuid_of(media_id@) {
                        None => e == Error::InvalidArgument && final(db)@ == old(db)@ && final(self).file_service@ == old(self).file_service@,
                        Some(mid) => {
                            if chunk@.len() > i64::MAX {
                                e == Error::Internal && final(db)@ == old(db)@ && final(self).file_service@ == old(self).file_service@
                            } else {
                                match find_media_for_owner(old(db)@.medias, mid, user_id@) {
                                    None => e == Error::NotFound && final(db)@ == old(db)@
                                        && final(self).file_service@ == old(self).file_service@,
                                    Some(pre_m) => {
                                        if pre_m.size_bytes + chunk@.len() > i64::MAX {
                                            e == Error::Internal && final(db)@ == old(db)@
                                                && final(self).file_service@ == old(self).file_service@
                                        } else {
                                            let added = medias_with_added_size(
                                                old(db)@.medias,
                                                mid,
                                                user_id@,
                                                chunk@.len() as int,
                                            );
                                            let upload_there = find_upload(
                                                old(self).file_service@.uploads,
                                                upload_id,
                                                pre_m.data_url,
                                            ) is Some;
                                            let q_ok = quota_ok_for(added, old(db)@.quotas,
                                            user_id@, default);
                                            &&& final(db)@.quotas == ensured_quotas(
                                                old(db)@.quotas,
                                                user_id@,
                                                default,
                                            )
                                            &&& if !q_ok && upload_there {
                                                &&& e == Error::QuotaExceeded
                                                &&& final(db)@.medias == old(db)@.medias.filter(
                                                    |m: MediaV| !(m.media_id == mid && m.user_id
                                                        == user_id@),
                                                )
                                                &&& final(self).file_service@.uploads == old(self).file_service@.uploads.filter(
                                                    |u: crate::files::MultipartUploadV| u.upload_id
                                                        != upload_id,
                                                )
                                            } else {
                                                &&& final(db)@.medias == added
                                                &&& final(self).file_service@.uploads == old(self).file_service@.uploads
                                                &&& if !q_ok {
                                                    e == Error::Transient && !upload_there
                                                } else if part_number > i32::MAX as u32 {
                                                    e == Error::InvalidArgument
                                                } else {
                                                    e == Error::Transient && !upload_there
                                                }
                                            }
                                        }
                                    },
                                }
                            }
                        },
                    }
                }),
            },
    {
        let mid = match parse_uuid(media_id.as_str()) {
            Ok(v) => v,
            Err(e) => {
                return Err(e);
            },
        };
        if chunk.len() as u64 > i64::MAX as u64 {
            return Err(Error::Internal);
        }
        let additional_size = chunk.len() as i64;
        let ghost pre_medias = db@.medias;
        proof {
            crate::model::lemma_find_first_sound(
                pre_medias,
                |m: MediaV| m.media_id == mid && m.user_id == user_id@,
            );
            match find_media_for_owner(pre_medias, mid, user_id@) {
                Some(fp) => {
                    let k = choose|k: int| 0 <= k < pre_medias.len() && pre_medias[k] == fp;
                    assert(0 <= pre_medias[k].size_bytes <= i64::MAX);
                },
                None => {},
            }
        }
        // The owner filter of the size update doubles as the ownership
        // check.
        let found = match Media::add_size(db, mid, user_id, additional_size) {
            Ok(m) => m,
            Err(e) => {
                return Err(e);
            },
        };
        proof {
            crate::model::lemma_find_first_sound(
                pre_medias,
                |m: MediaV| m.media_id == mid && m.user_id == user_id@,
            );
            let fp = find_media_for_owner(pre_medias, mid, user_id@).unwrap();
            let k = choose|k: int| 0 <= k < pre_medias.len() && pre_medias[k] == fp;
            assert forall|j: int| 0 <= j < pre_medias.len() implies db@.medias[j] == (if pre_medias[j].media_id
                == mid && pre_medias[j].user_id == user_id@ {
                MediaV { size_bytes: pre_medias[j].size_bytes + additional_size as int, ..pre_medias[j] }
            } else {
                pre_medias[j]
            }) by {
                if pre_medias[j].media_id == mid && pre_medias[j].user_id == user_id@ {
                    if k != j {
                        assert(pre_medias[k].media_id != pre_medias[j].media_id);
                    }
                    assert(pre_medias[j] == fp);
                }
            }
            assert(db@.medias =~~= medias_with_added_size(
                pre_medias,
                mid,
                user_id@,
                additional_size as int,
            ));
        }
        if self.quota_service.check_quota(db, user_id).is_err() {
            self.file_service.abort_multipart_upload(&found.data_url, upload_id)?;
            Media::delete(db, mid, user_id);
            proof {
                lemma_added_then_deleted(pre_medias, mid, user_id@, additional_size as int);
            }
            return Err(Error::QuotaExceeded);
        }
        let etag = self.file_service.put_multipart_chunk(
            &found.data_url,
            upload_id,
            part_number,
            chunk,
        )?;
        Ok(Part { part_number, etag })
    }

    /// Finalizes a multipart upload of an owned asset with the caller's
    /// ordered tag list; the orchestrator itself does not track part
    /// order.
    ///
    /// Fails with `InvalidArgument` on a malformed identifier, `NotFound`
    /// when the caller owns no such asset, and `Transient` when no such
    /// upload is open or the tag list is not accepted.
    pub fn complete_multipart_upload(
        &mut self,
        db: &Db,
        user_id: &String,
        media_id: &String,
        upload_id: u64,
        parts: &Vec<Part>,
    ) -> (r: Result<(), Error>)
        requires
            old(self).wf(),
        ensures
            final(self).wf(),
            final(self).quota_service == old(self).quota_service,
            match r {
                Ok(()) => ({
                    &&& uuid_of(media_id@) matches Some(mid)
                    &&& find_media_for_owner(db@.medias, mid, user_id@) matches Some(m) && ({
                        &&& find_upload(
                            old(self).file_service@.uploads,
                            upload_id,
                            m.data_url,
                        ) matches Some(u)
                        &&& crate::files::parts_valid(u.parts, parts.deep_view())
                        &&& final(self).file_service@.objects == upserted_objects(
                            old(self).file_service@.objects,
                            m.data_url,
                            crate::files::assembled(u.parts, parts.deep_view()),
                            u.content_type,
                        )
                        &&& final(self).file_service@.uploads == old(self).file_service@.uploads.filter(
                            |u: crate::files::MultipartUploadV| u.upload_id != upload_id,
                        )
                    })
                }),
                Err(e) => ({
                    &&& final(self).file_service@.objects == old(self).file_service@.objects
                    &&& final(self).file_service@.uploads == old(self).file_service@.uploads
                    &&& match uuid_of(media_id@) {
                        None => e == Error::InvalidArgument,
                        Some(mid) => match find_media_for_owner(db@.medias, mid, user_id@) {
                            None => e == Error::NotFound,
                            Some(m) => e == Error::Transient && (match find_upload(
                                old(self).file_service@.uploads,
                                upload_id,
                                m.data_url,
                            ) {
                                Some(u) => !crate::files::parts_valid(u.parts, parts.deep_view()),
                                None => true,
                            }),
                        },
                    }
                }),
            },
    {
        let mid = match parse_uuid(media_id.as_str()) {
            Ok(v) => v,
            Err(e) => {
                return Err(e);
            },
        };
        let found = match Media::get_for_owner(db, mid, user_id) {
            Some(m) => m,
            None => {
                return Err(Error::NotFound);
            },
        };
        self.file_service.complete_multipart_upload(&found.data_url, upload_id, parts)
    }

    /// Removes an owned asset's record and its stored object, as one
    /// logical unit of work.
    ///
    /// Fails with `InvalidArgument` on a malformed identifier and with
    /// `NotFound` exactly when the caller owns no such asset.
    pub fn delete_media(&mut self, db: &mut Db, user_id: &String, media_id: &String) -> (r: Result<
        (),
        Error,
    >)
        requires
            old(db).wf(),
            old(self).wf(),
        ensures
            final(db).wf(),
            final(self).wf(),
            final(self).quota_service == old(self).quota_service,
            final(db)@.media_offers == old(db)@.media_offers,
            final(db)@.quotas == old(db)@.quotas,
            final(db)@.media_subscriptions == old(db)@.media_subscriptions,
            final(db)@.sub_shops == old(db)@.sub_shops,
            final(db)@.sub_offers == old(db)@.sub_offers,
            final(self).file_service@.uploads == old(self).file_service@.uploads,
            match r {
                Ok(()) => ({
                    &&& uuid_of(media_id@) matches Some(mid)
                    &&& find_media_for_owner(old(db)@.medias, mid, user_id@) matches Some(m) && ({
                        &&& final(db)@.medias == old(db)@.medias.filter(
                            |x: MediaV| !(x.media_id == mid && x.user_id == user_id@),
                        )
                        &&& final(self).file_service@.objects == old(self).file_service@.objects.filter(
                            |o: crate::files::StoredObjectV| o.key != m.data_url,
                        )
                    })
                }),
                Err(e) => ({
                    &&& final(db)@.medias == old(db)@.medias
                    &&& final(self).file_service@ == old(self).file_service@
                    &&& match uuid_of(media_id@) {
                        None => e == Error::InvalidArgument,
                        Some(mid) => e == Error::NotFound && find_media_for_owner(
                            old(db)@.medias,
                            mid,
                            user_id@,
                        ) is None,
                    }
                }),
            },
    {
        let mid = match parse_uuid(media_id.as_str()) {
            Ok(v) => v,
            Err(e) => {
                return Err(e);
            },
        };
        let found = match Media::get_for_owner(db, mid, user_id) {
            Some(m) => m,
            None => {
                return Err(Error::NotFound);
            },
        };
        Media::delete(db, mid, user_id);
        let _ = self.file_service.remove_file(&found.data_url);
        Ok(())
    }

    /// Updates an owned asset's name, payload and stored file name, where
    /// given; a new payload replaces the stored object under the asset's
    /// existing key.
    ///
    /// Fails with `InvalidArgument` on a malformed identifier and with
    /// `NotFound` exactly when the caller owns no such asset. An
    /// oversized payload leaves the recorded size unchanged, as a keyed
    /// update without a size column.
    pub fn update_media(
        &mut self,
        db: &mut Db,
        user_id: &String,
        media_id: &String,
        name: Option<String>,
        file: Option<&MediaUpload>,
        file_name: Option<String>,
    ) -> (r: Result<MediaResponse, Error>)
        requires
            old(db).wf(),
            old(self).wf(),
        ensures
            final(db).wf(),
            final(self).wf(),
            final(self).quota_service == old(self).quota_service,
            final(db)@.media_offers == old(db)@.media_offers,
            final(db)@.quotas == old(db)@.quotas,
            final(db)@.media_subscriptions == old(db)@.media_subscriptions,
            final(db)@.sub_shops == old(db)@.sub_shops,
            final(db)@.sub_offers == old(db)@.sub_offers,
            final(self).file_service@.uploads == old(self).file_service@.uploads,
            match r {
                Ok(resp) => ({
                    let new_size: Option<int> = match file {
                        Some(f) => if f.data@.len() <= i64::MAX {
                            Some(f.data@.len() as int)
                        } else {
                            None
                        },
                        None => None,
                    };
                    &&& uuid_of(media_id@) matches Some(mid)
                    &&& find_media_for_owner(old(db)@.medias, mid, user_id@) matches Some(m) && ({
                        &&& final(db)@.medias.len() == old(db)@.medias.len()
                        &&& forall|j: int|
                            0 <= j < old(db)@.medias.len() && !(old(db)@.medias[j].media_id == mid
                                && old(db)@.medias[j].user_id == user_id@) ==> final(db)@.medias[j] == old(db)@.medias[j]
                        &&& forall|j: int|
                            0 <= j < old(db)@.medias.len() && old(db)@.medias[j].media_id == mid
                                && old(db)@.medias[j].user_id == user_id@ ==> final(db)@.medias[j]
                                == crate::model::media::updated_media(
                                m,
                                match name {
                                    Some(ref s) => Some(s@),
                                    None => None,
                                },
                                new_size,
                                match file_name {
                                    Some(ref s) => Some(s@),
                                    None => None,
                                },
                                final(db)@.medias[j].updated_at,
                            )
                        &&& match file {
                            Some(f) => final(self).file_service@.objects == upserted_objects(
                                old(self).file_service@.objects,
                                m.data_url,
                                f.data@,
                                f.content_type@,
                            ),
                            None => final(self).file_service@.objects == old(self).file_service@.objects,
                        }
                        &&& resp.media_id@ == uuid_str_of(mid)
                    })
                }),
                Err(e) => ({
                    &&& final(db)@.medias == old(db)@.medias
                    &&& final(self).file_service@ == old(self).file_service@
                    &&& match uuid_of(media_id@) {
                        None => e == Error::InvalidArgument,
                        Some(mid) => e == Error::NotFound && find_media_for_owner(
                            old(db)@.medias,
                            mid,
                            user_id@,
                        ) is None,
                    }
                }),
            },
    {
        let mid = match parse_uuid(media_id.as_str()) {
            Ok(v) => v,
            Err(e) => {
                return Err(e);
            },
        };
        let found = match Media::get_for_owner(db, mid, user_id) {
            Some(m) => m,
            None => {
                return Err(Error::NotFound);
            },
        };
        let new_size: Option<i64> = match file {
            Some(f) => {
                if f.data.len() as u64 <= i64::MAX as u64 {
                    Some(f.data.len() as i64)
                } else {
                    None
                }
            },
            None => None,
        };
        let now = now_unix_ts();
        proof {
            crate::model::lemma_find_first_sound(
                db@.medias,
                |m: MediaV| m.media_id == mid && m.user_id == user_id@,
            );
        }
        let updated = match Media::update(db, mid, user_id, name, new_size, file_name, now) {
            Ok(m) => m,
            Err(_) => {
                proof {
                    assert(false);
                }
                return Err(Error::Internal);
            },
        };
        if let Some(f) = file {
            let _ = self.file_service.put_file(&found.data_url, &f.data, &f.content_type);
        }
        Ok(Self::to_response(db, &updated))
    }
}

/// Whether `user_id` may read `media_id`: some association links the
/// asset to an offer for which the user holds a subscription paid up at
/// `now`.
pub open spec fn media_accessible(db: DbV, media_id: u128, user_id: Seq<char>, now: int) -> bool {
    exists|a: int, s: int|
        0 <= a < db.media_offers.len() && 0 <= s < db.media_subscriptions.len() && (
        #[trigger] db.media_offers[a]).media_id == media_id && (
        #[trigger] db.media_subscriptions[s]).buyer_user_id == user_id
            && db.media_subscriptions[s].offer_id == db.media_offers[a].offer_id
            && db.media_subscriptions[s].payed_until >= now
}

impl MediaService {
    /// Decides access from the cached facts alone — a pure local lookup.
    pub fn is_accessible(db: &Db, media_id: u128, user_id: &String, now: i64) -> (r: bool)
        ensures
            r == media_accessible(db@, media_id, user_id@, now as int),
    {
        let na = db.media_offers.len();
        for a in 0..na
            invariant
                na == db.media_offers.len(),
                forall|x: int, y: int|
                    0 <= x < a && 0 <= y < db@.media_subscriptions.len() ==> !((
                    #[trigger] db@.media_offers[x]).media_id == media_id && (
                    #[trigger] db@.media_subscriptions[y]).buyer_user_id == user_id@
                        && db@.media_subscriptions[y].offer_id == db@.media_offers[x].offer_id
                        && db@.media_subscriptions[y].payed_until >= now),
        {
            proof {
                assert(db@.media_offers[a as int] == db.media_offers@[a as int]@);
            }
            if db.media_offers[a].media_id == media_id {
                let offer = db.media_offers[a].offer_id;
                let ns = db.media_subscriptions.len();
                for s in 0..ns
                    invariant
                        ns == db.media_subscriptions.len(),
                        na == db.media_offers.len(),
                        a < na,
                        offer == db@.media_offers[a as int].offer_id,
                        db@.media_offers[a as int].media_id == media_id,
                        forall|y: int|
                            0 <= y < s ==> !((#[trigger] db@.media_subscriptions[y]).buyer_user_id
                                == user_id@ && db@.media_subscriptions[y].offer_id == offer
                                && db@.media_subscriptions[y].payed_until >= now),
                {
                    proof {
                        assert(db@.media_subscriptions[s as int]
                            == db.media_subscriptions@[s as int]@);
                    }
                    if db.media_subscriptions[s].buyer_user_id == *user_id
                        && db.media_subscriptions[s].offer_id == offer
                        && db.media_subscriptions[s].payed_until >= now {
                        proof {
                            assert(media_accessible(db@, media_id, user_id@, now as int)) by {
                                assert(0 <= a < db@.media_offers.len() && 0 <= s
                                    < db@.media_subscriptions.len()
                                    && db@.media_offers[a as int].media_id == media_id
                                    && db@.media_subscriptions[s as int].buyer_user_id == user_id@
                                    && db@.media_subscriptions[s as int].offer_id
                                    == db@.media_offers[a as int].offer_id
                                    && db@.media_subscriptions[s as int].payed_until >= now);
                            }
                        }
                        return true;
                    }
                }
            }
        }
        false
    }

    /// Resolves an accessible asset to its storage key and stored file
    /// name, for the adapter to serve. Access is decided from the cached
    /// subscription facts alone, against the clock.
    ///
    /// Fails with `InvalidArgument` on a malformed identifier and with
    /// `NotFound` exactly when the asset is absent or not accessible to
    /// the caller at `now`.
    pub fn download_media_at(&self, db: &Db, user_id: &String, media_id: &String, now: i64) -> (r:
        Result<(String, String), Error>)
        ensures
            match r {
                Ok((key, file_name)) => ({
                    &&& uuid_of(media_id@) matches Some(mid)
                    &&& find_media(db@.medias, mid) matches Some(m)
                    &&& media_accessible(db@, mid, user_id@, now as int)
                    &&& key@ == m.user_id + "/"@ + uuid_str_of(m.shop_id) + "/"@ + uuid_str_of(
                        m.media_id,
                    )
                    &&& file_name@ == m.file_name
                }),
                Err(e) => match uuid_of(media_id@) {
                    None => e == Error::InvalidArgument,
                    Some(mid) => e == Error::NotFound && (find_media(db@.medias, mid) is None
                        || !media_accessible(db@, mid, user_id@, now as int)),
                },
            },
    {
        let mid = parse_uuid(media_id.as_str())?;
        let found = match Self::get_any(db, mid) {
            Some(m) => m,
            None => {
                return Err(Error::NotFound);
            },
        };
        if !Self::is_accessible(db, mid, user_id, now) {
            return Err(Error::NotFound);
        }
        let key = Self::build_file_path(&found.user_id, found.shop_id, found.media_id);
        let file_name = found.file_name;
        proof {
            crate::model::lemma_find_first_sound(db@.medias, |m: MediaV| m.media_id == mid);
        }
        Ok((key, file_name))
    }

    /// The same read at the clock's current time.
    pub fn download_media(&self, db: &Db, user_id: &String, media_id: &String) -> (r: Result<
        (String, String),
        Error,
    >)
        ensures
            r matches Ok((key, file_name)) ==> ({
                &&& uuid_of(media_id@) matches Some(mid)
                &&& find_media(db@.medias, mid) matches Some(m)
                &&& key@ == m.user_id + "/"@ + uuid_str_of(m.shop_id) + "/"@ + uuid_str_of(
                    m.media_id,
                )
                &&& file_name@ == m.file_name
            }),
            r matches Err(e) ==> (e == Error::InvalidArgument <==> uuid_of(media_id@) is None),
    {
        let now = now_unix_ts();
        self.download_media_at(db, user_id, media_id, now)
    }

    /// Reads an asset regardless of owner.
    fn get_any(db: &Db, media_id: u128) -> (r: Option<Media>)
        ensures
            r.deep_view() == find_media(db@.medias, media_id),
    {
        let n = db.medias.len();
        for i in 0..n
            invariant
                n == db.medias.len(),
                forall|j: int| 0 <= j < i ==> db@.medias[j].media_id != media_id,
        {
            proof {
                assert(db@.medias[i as int] == db.medias@[i as int]@);
            }
            if db.medias[i].media_id == media_id {
                proof {
                    crate::model::lemma_find_first_hit(
                        db@.medias,
                        |m: MediaV| m.media_id == media_id,
                        i as int,
                    );
                }
                return Some(db.medias[i].clone());
            }
        }
        proof {
            crate::model::lemma_find_first_none(db@.medias, |m: MediaV| m.media_id == media_id);
        }
        None
    }
}

/// LAW (quota invariant): after the compensating cleanup of a quota
/// breach mid-upload — the asset row deleted, the upload aborted — the
/// asset no longer exists, the upload is closed, and, provided the key
/// held no completed object before, the store holds no object under it.
pub proof fn lemma_cleanup_leaves_no_orphan(
    pre_medias: Seq<MediaV>,
    post_medias: Seq<MediaV>,
    pre_objects: Seq<crate::files::StoredObjectV>,
    post_objects: Seq<crate::files::StoredObjectV>,
    pre_uploads: Seq<crate::files::MultipartUploadV>,
    post_uploads: Seq<crate::files::MultipartUploadV>,
    media_id: u128,
    user_id: Seq<char>,
    upload_id: u64,
    key: Seq<char>,
)
    requires
        post_medias == pre_medias.filter(
            |m: MediaV| !(m.media_id == media_id && m.user_id == user_id),
        ),
        post_objects == pre_objects,
        find_object(pre_objects, key) is None,
        post_uploads == pre_uploads.filter(
            |u: crate::files::MultipartUploadV| u.upload_id != upload_id,
        ),
    ensures
        find_media_for_owner(post_medias, media_id, user_id) is None,
        find_object(post_objects, key) is None,
        find_upload(post_uploads, upload_id, key) is None,
{
    assert forall|j: int| 0 <= j < post_medias.len() implies !(post_medias[j].media_id == media_id
        && post_medias[j].user_id == user_id) by {
        pre_medias.lemma_filter_pred(
            |m: MediaV| !(m.media_id == media_id && m.user_id == user_id),
            j,
        );
    }
    lemma_no_owned_row_finds_none(post_medias, media_id, user_id);
    assert forall|j: int| 0 <= j < post_uploads.len() implies post_uploads[j].upload_id
        != upload_id by {
        pre_uploads.lemma_filter_pred(
            |u: crate::files::MultipartUploadV| u.upload_id != upload_id,
            j,
        );
    }
    crate::model::lemma_find_first_none(
        post_uploads,
        |u: crate::files::MultipartUploadV| u.upload_id == upload_id && u.key == key,
    );
}

/// Helper: a table without a matching row finds none.
proof fn lemma_no_owned_row_finds_none(
    s: Seq<MediaV>,
    media_id: u128,
    user_id: Seq<char>,
)
    requires
        forall|j: int|
            0 <= j < s.len() ==> !((#[trigger] s[j]).media_id == media_id && s[j].user_id
                == user_id),
    ensures
        find_media_for_owner(s, media_id, user_id) is None,
{
    crate::model::lemma_find_first_none(
        s,
        |m: MediaV| m.media_id == media_id && m.user_id == user_id,
    );
}

/// The filter of an asset listing.
#[derive(Clone, Copy, Debug, PartialEq, Eq, Structural)]
pub enum MediaFilterField {
    Unspecified,
    Name,
    OfferId,
}

/// The sort key of an asset listing.
#[derive(Clone, Copy, Debug, PartialEq, Eq, Structural)]
pub enum MediaOrderByField {
    Unspecified,
    CreatedAt,
    UpdatedAt,
    Ordering,
}

/// The sort direction of an asset listing.
#[derive(Clone, Copy, Debug, PartialEq, Eq, Structural)]
pub enum Direction {
    Unspecified,
    Asc,
    Desc,
}

/// An asset paired with its resolved sort key.
#[derive(Debug)]
pub struct KeyedMedia {
    pub key: i64,
    pub media: Media,
}

/// Abstract view of a keyed asset.
#[verifier::ext_equal]
pub struct KeyedMediaV {
    pub key: int,
    pub media: MediaV,
}

impl View for KeyedMedia {
    type V = KeyedMediaV;

    open spec fn view(&self) -> KeyedMediaV {
        KeyedMediaV { key: self.key as int, media: self.media@ }
    }
}

impl DeepView for KeyedMedia {
    type V = KeyedMediaV;

    open spec fn deep_view(&self) -> KeyedMediaV {
        self.view()
    }
}

/// The sort order: ascending or descending by key, ties keeping their
/// original order.
pub open spec fn keyed_le(a: KeyedMediaV, b: KeyedMediaV, asc: bool) -> bool {
    if asc {
        a.key <= b.key
    } else {
        a.key >= b.key
    }
}

/// Inserts `x` into a sorted run, after any equal keys — the step of a
/// stable insertion sort.
pub open spec fn insert_keyed(s: Seq<KeyedMediaV>, x: KeyedMediaV, asc: bool) -> Seq<KeyedMediaV>
    decreases s.len(),
{
    if s.len() == 0 {
        seq![x]
    } else if keyed_le(s.last(), x, asc) {
        s.push(x)
    } else {
        insert_keyed(s.drop_last(), x, asc).push(s.last())
    }
}

/// The stable sort of a keyed sequence.
pub open spec fn sort_keyed(s: Seq<KeyedMediaV>, asc: bool) -> Seq<KeyedMediaV>
    decreases s.len(),
{
    if s.len() == 0 {
        Seq::empty()
    } else {
        insert_keyed(sort_keyed(s.drop_last(), asc), s.last(), asc)
    }
}

/// When every element from `j` on refuses to precede `x`, inserting `x`
/// touches only the prefix.
proof fn lemma_insert_keyed_skip(s: Seq<KeyedMediaV>, x: KeyedMediaV, asc: bool, j: int)
    requires
        0 <= j <= s.len(),
        forall|k: int| j <= k < s.len() ==> !keyed_le(#[trigger] s[k], x, asc),
    ensures
        insert_keyed(s, x, asc) == insert_keyed(s.take(j), x, asc) + s.skip(j),
    decreases s.len() - j,
{
    if j == s.len() {
        assert(s.take(j) =~= s);
        assert(insert_keyed(s, x, asc) =~= insert_keyed(s.take(j), x, asc) + s.skip(j));
    } else {
        assert(!keyed_le(s.last(), x, asc));
        lemma_insert_keyed_skip(s.drop_last(), x, asc, j);
        assert(s.drop_last().take(j) =~= s.take(j));
        assert(insert_keyed(s, x, asc) == insert_keyed(s.drop_last(), x, asc).push(s.last()));
        assert(insert_keyed(s.drop_last(), x, asc).push(s.last()) =~= insert_keyed(
            s.take(j),
            x,
            asc,
        ) + s.skip(j)) by {
            assert(s.drop_last().skip(j).push(s.last()) =~= s.skip(j));
        }
    }
}

impl MediaService {
    /// Inserts a keyed asset into a sorted run, after any equal keys.
    fn insert_keyed_exec(out: &mut Vec<KeyedMedia>, x: KeyedMedia, asc: bool)
        ensures
            final(out).deep_view() == insert_keyed(old(out).deep_view(), x@, asc),
    {
        let ghost pre = out.deep_view();
        let mut j = out.len();
        loop
            invariant
                j <= out.len(),
                *out == *old(out),
                pre == out.deep_view(),
                forall|k: int| j <= k < pre.len() ==> !keyed_le(#[trigger] pre[k], x@, asc),
            ensures
                j <= out.len(),
                *out == *old(out),
                forall|k: int| j <= k < pre.len() ==> !keyed_le(#[trigger] pre[k], x@, asc),
                j == 0 || keyed_le(pre[j - 1], x@, asc),
            decreases j,
        {
            if j == 0 {
                break ;
            }
            proof {
                assert(out.deep_view()[j - 1] == out@[j - 1]@);
            }
            let above = if asc {
                out[j - 1].key > x.key
            } else {
                out[j - 1].key < x.key
            };
            if !above {
                break ;
            }
            j = j - 1;
        }
        proof {
            if j > 0 {
                assert(out.deep_view()[j - 1] == out@[j - 1]@);
            }
            lemma_insert_keyed_skip(pre, x@, asc, j as int);
            if j > 0 {
                assert(keyed_le(pre[j - 1], x@, asc));
                assert(pre.take(j as int).last() == pre[j - 1]);
                assert(insert_keyed(pre.take(j as int), x@, asc) == pre.take(j as int).push(x@));
            } else {
                assert(pre.take(0) =~= Seq::<KeyedMediaV>::empty());
                assert(insert_keyed(pre.take(0), x@, asc) =~= seq![x@]);
            }
        }
        out.insert(j, x);
        proof {
            assert(out.deep_view() =~= insert_keyed(pre.take(j as int), x@, asc) + pre.skip(
                j as int,
            ));
        }
    }

    /// Sorts keyed assets stably by key.
    fn sort_keyed_exec(v: Vec<KeyedMedia>, asc: bool) -> (r: Vec<KeyedMedia>)
        ensures
            r.deep_view() == sort_keyed(v.deep_view(), asc),
    {
        let mut out: Vec<KeyedMedia> = Vec::new();
        let n = v.len();
        let mut i: usize = 0;
        while i < n
            invariant
                i <= n,
                n == v.len(),
                out.deep_view() == sort_keyed(v.deep_view().take(i as int), asc),
            decreases n - i,
        {
            proof {
                assert(v.deep_view()[i as int] == v@[i as int]@);
                assert(v.deep_view().take(i + 1).drop_last() =~= v.deep_view().take(i as int));
                assert(v.deep_view().take(i + 1).last() == v.deep_view()[i as int]);
            }
            let x = KeyedMedia { key: v[i].key, media: v[i].media.clone() };
            proof {
                assert(x@ == v.deep_view()[i as int]);
            }
            Self::insert_keyed_exec(&mut out, x, asc);
            i = i + 1;
        }
        proof {
            assert(v.deep_view().take(n as int) =~= v.deep_view());
        }
        out
    }
}

/// Whether the listing runs ascending; an unspecified direction does.
pub open spec fn dir_asc(dir: Direction) -> bool {
    dir != Direction::Desc
}

/// The sort key of an asset: the chosen timestamp, or the asset's first
/// association ordering — assets without an association sort last.
pub open spec fn key_of(m: MediaV, dbv: DbV, field: MediaOrderByField, dir: Direction) -> int {
    match field {
        MediaOrderByField::UpdatedAt => m.updated_at,
        MediaOrderByField::Ordering => {
            let a = assocs_of(dbv.media_offers, m.media_id);
            if a.len() > 0 {
                a[0].ordering
            } else if dir_asc(dir) {
                i64::MAX as int
            } else {
                i64::MIN as int
            }
        },
        _ => m.created_at,
    }
}

/// A filtered selection arranged for a listing: sorted stably by the
/// requested key, or left in table order.
pub open spec fn arranged(
    dbv: DbV,
    s: Seq<MediaV>,
    order_by: Option<(MediaOrderByField, Direction)>,
) -> Seq<MediaV> {
    match order_by {
        None => s,
        Some((field, dir)) => sort_keyed(
            s.map_values(|m: MediaV| KeyedMediaV { key: key_of(m, dbv, field, dir), media: m }),
            dir_asc(dir),
        ).map_values(|k: KeyedMediaV| k.media),
    }
}

/// Whether an asset passes a listing filter.
pub open spec fn matches_filter(
    m: MediaV,
    dbv: DbV,
    filter: Option<(MediaFilterField, Seq<char>)>,
) -> bool {
    match filter {
        Some((MediaFilterField::Name, q)) => m.name == q,
        Some((MediaFilterField::OfferId, q)) => uuid_of(q) matches Some(oid) && find_media_offer(
            dbv.media_offers,
            m.media_id,
            oid,
        ) is Some,
        _ => true,
    }
}

/// The view of a listing filter.
pub open spec fn filter_view(f: Option<(MediaFilterField, String)>) -> Option<
    (MediaFilterField, Seq<char>),
> {
    match f {
        Some((field, q)) => Some((field, q@)),
        None => None,
    }
}

impl MediaService {
    /// The ordering of an asset's first association, if any.
    fn first_assoc_ordering(db: &Db, media_id: u128) -> (r: Option<i64>)
        ensures
            ({
                let a = assocs_of(db@.media_offers, media_id);
                match r {
                    Some(o) => a.len() > 0 && a[0].ordering == o,
                    None => a.len() == 0,
                }
            }),
    {
        let n = db.media_offers.len();
        for i in 0..n
            invariant
                n == db.media_offers.len(),
                db@.media_offers.take(i as int).filter(
                    |mo: MediaOfferV| mo.media_id == media_id,
                ).len() == 0,
        {
            proof {
                reveal(Seq::filter);
                assert(db@.media_offers[i as int] == db.media_offers@[i as int]@);
                assert(db@.media_offers.take(i + 1).drop_last() =~= db@.media_offers.take(i as int));
                assert(db@.media_offers.take(i + 1).last() == db@.media_offers[i as int]);
            }
            if db.media_offers[i].media_id == media_id {
                proof {
                    let a = db@.media_offers.filter(|mo: MediaOfferV| mo.media_id == media_id);
                    lemma_filter_prefix_first(db@.media_offers, media_id, i as int);
                }
                return Some(db.media_offers[i].ordering);
            }
        }
        proof {
            assert(db@.media_offers.take(n as int) =~= db@.media_offers);
        }
        None
    }

    /// Arranges a filtered selection for a listing and slices the page.
    fn arrange_and_page(
        db: &Db,
        filtered: Vec<Media>,
        order_by: &Option<(MediaOrderByField, Direction)>,
        offset: u64,
        limit: u32,
    ) -> (r: Vec<Media>)
        ensures
            r.deep_view() == page(
                arranged(db@, filtered.deep_view(), *order_by),
                offset as int,
                limit as int,
            ),
    {
        let arranged_vec: Vec<Media> = match order_by {
            None => filtered,
            Some((field, dir)) => {
                let asc = !matches!(dir, Direction::Desc);
                let mut keyed: Vec<KeyedMedia> = Vec::new();
                let n = filtered.len();
                for i in 0..n
                    invariant
                        n == filtered.len(),
                        keyed.deep_view() == filtered.deep_view().take(i as int).map_values(
                            |m: MediaV| KeyedMediaV {
                                key: key_of(m, db@, *field, *dir),
                                media: m,
                            },
                        ),
                        asc == dir_asc(*dir),
                {
                    proof {
                        assert(filtered.deep_view()[i as int] == filtered@[i as int]@);
                        assert(filtered.deep_view().take(i + 1) =~= filtered.deep_view().take(
                            i as int,
                        ).push(filtered.deep_view()[i as int]));
                    }
                    let m = filtered[i].clone();
                    let key: i64 = match field {
                        MediaOrderByField::UpdatedAt => m.updated_at,
                        MediaOrderByField::Ordering => {
                            match Self::first_assoc_ordering(db, m.media_id) {
                                Some(o) => o,
                                None => if asc {
                                    i64::MAX
                                } else {
                                    i64::MIN
                                },
                            }
                        },
                        _ => m.created_at,
                    };
                    let ghost prek = keyed.deep_view();
                    keyed.push(KeyedMedia { key, media: m });
                    proof {
                        assert(keyed.deep_view() =~= prek.push(
                            KeyedMediaV {
                                key: key_of(filtered.deep_view()[i as int], db@, *field, *dir),
                                media: filtered.deep_view()[i as int],
                            },
                        ));
                        assert(keyed.deep_view() =~= filtered.deep_view().take(i + 1).map_values(
                            |m: MediaV| KeyedMediaV {
                                key: key_of(m, db@, *field, *dir),
                                media: m,
                            },
                        ));
                    }
                }
                proof {
                    assert(filtered.deep_view().take(n as int) =~= filtered.deep_view());
                }
                let sorted = Self::sort_keyed_exec(keyed, asc);
                let mut out: Vec<Media> = Vec::new();
                let ns = sorted.len();
                for i in 0..ns
                    invariant
                        ns == sorted.len(),
                        sorted.deep_view() == sort_keyed(
                            filtered.deep_view().map_values(
                                |m: MediaV| KeyedMediaV {
                                    key: key_of(m, db@, *field, *dir),
                                    media: m,
                                },
                            ),
                            dir_asc(*dir),
                        ),
                        out.deep_view() == sorted.deep_view().take(i as int).map_values(
                            |k: KeyedMediaV| k.media,
                        ),
                {
                    proof {
                        assert(sorted.deep_view()[i as int] == sorted@[i as int]@);
                        assert(sorted.deep_view().take(i + 1) =~= sorted.deep_view().take(
                            i as int,
                        ).push(sorted.deep_view()[i as int]));
                    }
                    let ghost preout = out.deep_view();
                    out.push(sorted[i].media.clone());
                    proof {
                        assert(out.deep_view() =~= preout.push(
                            sorted.deep_view()[i as int].media,
                        ));
                        assert(out.deep_view() =~= sorted.deep_view().take(i + 1).map_values(
                            |k: KeyedMediaV| k.media,
                        ));
                    }
                }
                proof {
                    assert(sorted.deep_view().take(ns as int) =~= sorted.deep_view());
                }
                out
            },
        };
        Self::page_of_medias(&arranged_vec, offset, limit as u64)
    }

    /// Copies the requested page out of an arranged selection.
    fn page_of_medias(arranged_vec: &Vec<Media>, offset: u64, limit: u64) -> (r: Vec<Media>)
        ensures
            r.deep_view() == page(arranged_vec.deep_view(), offset as int, limit as int),
    {
        let n = arranged_vec.len();
        let start: usize = if offset > n as u64 {
            n
        } else {
            offset as usize
        };
        let end: usize = if limit > (n - start) as u64 {
            n
        } else {
            start + limit as usize
        };
        let mut out: Vec<Media> = Vec::new();
        for k in start..end
            invariant
                start <= k <= end <= n,
                n == arranged_vec.len(),
                out.deep_view() == arranged_vec.deep_view().subrange(start as int, k as int),
        {
            proof {
                assert(arranged_vec.deep_view()[k as int] == arranged_vec@[k as int]@);
            }
            let ghost preout = out.deep_view();
            out.push(arranged_vec[k].clone());
            proof {
                assert(out.deep_view() =~= preout.push(arranged_vec.deep_view()[k as int]));
                assert(arranged_vec.deep_view().subrange(start as int, k + 1)
                    =~= arranged_vec.deep_view().subrange(start as int, k as int).push(
                    arranged_vec.deep_view()[k as int],
                ));
            }
        }
        proof {
            assert(out.deep_view() =~= page(
                arranged_vec.deep_view(),
                offset as int,
                limit as int,
            ));
        }
        out
    }

    /// Selects the caller\'s assets of one shop that pass the filter, in
    /// table order.
    fn filter_owner_medias(
        db: &Db,
        shop_id: u128,
        user_id: &String,
        filter: &Option<(MediaFilterField, String)>,
    ) -> (r: Vec<Media>)
        ensures
            r.deep_view() == db@.medias.filter(
                |m: MediaV| m.shop_id == shop_id && m.user_id == user_id@ && matches_filter(
                    m,
                    db@,
                    filter_view(*filter),
                ),
            ),
    {
        let mut out: Vec<Media> = Vec::new();
        let n = db.medias.len();
        for i in 0..n
            invariant
                n == db.medias.len(),
                out.deep_view() == db@.medias.take(i as int).filter(
                    |m: MediaV| m.shop_id == shop_id && m.user_id == user_id@ && matches_filter(
                        m,
                        db@,
                        filter_view(*filter),
                    ),
                ),
        {
            proof {
                reveal(Seq::filter);
                assert(db@.medias[i as int] == db.medias@[i as int]@);
                assert(db@.medias.take(i + 1).drop_last() =~= db@.medias.take(i as int));
                assert(db@.medias.take(i + 1).last() == db@.medias[i as int]);
            }
            let scope_ok = db.medias[i].shop_id == shop_id && db.medias[i].user_id == *user_id;
            if scope_ok && Self::passes_filter(db, &db.medias[i], filter) {
                let ghost preout = out.deep_view();
                out.push(db.medias[i].clone());
                proof {
                    assert(out.deep_view() =~= preout.push(db@.medias[i as int]));
                }
            }
        }
        proof {
            assert(db@.medias.take(n as int) =~= db@.medias);
        }
        out
    }

    /// Selects the assets accessible to the caller at `now` that pass the
    /// filter, in table order.
    fn filter_accessible_medias(
        db: &Db,
        user_id: &String,
        now: i64,
        filter: &Option<(MediaFilterField, String)>,
    ) -> (r: Vec<Media>)
        ensures
            r.deep_view() == db@.medias.filter(
                |m: MediaV| media_accessible(db@, m.media_id, user_id@, now as int)
                    && matches_filter(m, db@, filter_view(*filter)),
            ),
    {
        let mut out: Vec<Media> = Vec::new();
        let n = db.medias.len();
        for i in 0..n
            invariant
                n == db.medias.len(),
                out.deep_view() == db@.medias.take(i as int).filter(
                    |m: MediaV| media_accessible(db@, m.media_id, user_id@, now as int)
                        && matches_filter(m, db@, filter_view(*filter)),
                ),
        {
            proof {
                reveal(Seq::filter);
                assert(db@.medias[i as int] == db.medias@[i as int]@);
                assert(db@.medias.take(i + 1).drop_last() =~= db@.medias.take(i as int));
                assert(db@.medias.take(i + 1).last() == db@.medias[i as int]);
            }
            let acc = Self::is_accessible(db, db.medias[i].media_id, user_id, now);
            if acc && Self::passes_filter(db, &db.medias[i], filter) {
                let ghost preout = out.deep_view();
                out.push(db.medias[i].clone());
                proof {
                    assert(out.deep_view() =~= preout.push(db@.medias[i as int]));
                }
            }
        }
        proof {
            assert(db@.medias.take(n as int) =~= db@.medias);
        }
        out
    }

    /// Whether an asset passes the (already validated) filter.
    fn passes_filter(db: &Db, m: &Media, filter: &Option<(MediaFilterField, String)>) -> (r: bool)
        ensures
            r == matches_filter(m@, db@, filter_view(*filter)),
    {
        match filter {
            Some((MediaFilterField::Name, q)) => m.name == *q,
            Some((MediaFilterField::OfferId, q)) => {
                match crate::ids::uuid_try_parse(q.as_str()) {
                    Some(oid) => MediaOffer::get(db, m.media_id, oid).is_some(),
                    None => false,
                }
            },
            _ => true,
        }
    }
}

/// The first filtered element is the first match.
proof fn lemma_filter_prefix_first(s: Seq<MediaOfferV>, media_id: u128, i: int)
    requires
        0 <= i < s.len(),
        s[i].media_id == media_id,
        s.take(i).filter(|mo: MediaOfferV| mo.media_id == media_id).len() == 0,
    ensures
        ({
            let a = s.filter(|mo: MediaOfferV| mo.media_id == media_id);
            a.len() > 0 && a[0] == s[i]
        }),
{
    let p = |mo: MediaOfferV| mo.media_id == media_id;
    lemma_filter_split_first(s, p, i);
}

/// Splitting a sequence at a match whose prefix filters empty puts the
/// match first.
proof fn lemma_filter_split_first<T>(s: Seq<T>, p: spec_fn(T) -> bool, i: int)
    requires
        0 <= i < s.len(),
        p(s[i]),
        s.take(i).filter(p).len() == 0,
    ensures
        s.filter(p).len() > 0 && s.filter(p)[0] == s[i],
{
    assert(s =~= s.take(i + 1) + s.skip(i + 1));
    Seq::filter_distributes_over_add(s.take(i + 1), s.skip(i + 1), p);
    reveal(Seq::filter);
    assert(s.take(i + 1).drop_last() =~= s.take(i));
    assert(s.take(i + 1).last() == s[i]);
    assert(s.take(i + 1).filter(p) =~= seq![s[i]]);
    assert(s.filter(p)[0] == (s.take(i + 1).filter(p) + s.skip(i + 1).filter(p))[0]);
}

/// Whether a response faithfully renders a listed asset.
pub open spec fn response_matches(resp: MediaResponse, m: MediaV, dbv: DbV) -> bool {
    &&& resp.media_id@ == uuid_str_of(m.media_id)
    &&& resp.shop_id@ == uuid_str_of(m.shop_id)
    &&& resp.user_id@ == m.user_id
    &&& resp.created_at == m.created_at
    &&& resp.updated_at == m.updated_at
    &&& resp.name@ == m.name
    &&& resp.file_name@ == m.file_name
    &&& resp.offer_ids.deep_view() == assocs_of(dbv.media_offers, m.media_id).map_values(
        |mo: MediaOfferV| uuid_str_of(mo.offer_id),
    )
    &&& resp.ordering == ({
        let a = assocs_of(dbv.media_offers, m.media_id);
        if a.len() > 0 {
            a[0].ordering
        } else {
            0int
        }
    })
}

/// The row limit and offset a pagination request denotes; without one,
/// the first page of ten rows.
pub open spec fn page_params(p: Option<PaginationRequest>) -> (int, int) {
    match p {
        Some(req) => ((req.page - 1) * req.size, req.size as int),
        None => (0int, 10int),
    }
}

impl MediaService {
    /// Converts listed assets to responses.
    fn responses_of(db: &Db, listed: &Vec<Media>) -> (r: Vec<MediaResponse>)
        ensures
            r.len() == listed.len(),
            forall|i: int|
                0 <= i < listed@.len() ==> response_matches(
                    #[trigger] r@[i],
                    listed.deep_view()[i],
                    db@,
                ),
    {
        let mut out: Vec<MediaResponse> = Vec::new();
        let n = listed.len();
        for i in 0..n
            invariant
                n == listed.len(),
                out.len() == i,
                forall|j: int|
                    0 <= j < i ==> response_matches(#[trigger] out@[j], listed.deep_view()[j], db@),
        {
            proof {
                assert(listed.deep_view()[i as int] == listed@[i as int]@);
            }
            let resp = Self::to_response(db, &listed[i]);
            out.push(resp);
        }
        out
    }

    /// Reads a page of the caller\'s assets of one shop, filtered and
    /// arranged as requested, with the total count of matches.
    ///
    /// Fails with `InvalidArgument` exactly when the shop identifier, the
    /// requested page or an offer filter is malformed, and with `Internal`
    /// exactly when the count of matches cannot be represented.
    pub fn list_media(
        &self,
        db: &Db,
        user_id: &String,
        shop_id: &String,
        filter: Option<(MediaFilterField, String)>,
        order_by: Option<(MediaOrderByField, Direction)>,
        pagination: &Option<PaginationRequest>,
    ) -> (r: Result<(Vec<MediaResponse>, PaginationResponse), Error>)
        ensures
            match r {
                Ok((resps, p)) => ({
                    let filtered = db@.medias.filter(
                        |m: MediaV| ({
                            &&& uuid_of(shop_id@) matches Some(sid)
                            &&& m.shop_id == sid
                            &&& m.user_id == user_id@
                            &&& matches_filter(m, db@, filter_view(filter))
                        }),
                    );
                    let listed = page(
                        arranged(db@, filtered, order_by),
                        page_params(*pagination).0,
                        page_params(*pagination).1,
                    );
                    &&& uuid_of(shop_id@) is Some
                    &&& resps.len() == listed.len()
                    &&& forall|i: int|
                        0 <= i < listed.len() ==> response_matches(
                            #[trigger] resps@[i],
                            listed[i],
                            db@,
                        )
                    &&& p.total_elements == filtered.len()
                }),
                Err(e) => ({
                    let bad_shop = uuid_of(shop_id@) is None;
                    let bad_page = *pagination matches Some(req) && req.page < 1;
                    let bad_filter = filter matches Some((MediaFilterField::OfferId, q))
                        && uuid_of(q@) is None;
                    if bad_shop || bad_page || bad_filter {
                        e == Error::InvalidArgument
                    } else {
                        e == Error::Internal && db@.medias.filter(
                            |m: MediaV| ({
                                &&& uuid_of(shop_id@) matches Some(sid)
                                &&& m.shop_id == sid
                                &&& m.user_id == user_id@
                                &&& matches_filter(m, db@, filter_view(filter))
                            }),
                        ).len() > u32::MAX
                    }
                }),
            },
    {
        let sid = parse_uuid(shop_id.as_str())?;
        let (limit, offset, mut pagination_out) = crate::services::get_limit_offset_from_pagination(
            pagination,
        )?;
        if let Some((MediaFilterField::OfferId, q)) = &filter {
            if crate::ids::uuid_try_parse(q.as_str()).is_none() {
                return Err(Error::InvalidArgument);
            }
        }
        let filtered = Self::filter_owner_medias(db, sid, user_id, &filter);
        let count = filtered.len();
        proof {
            assert(db@.medias.filter(
                |m: MediaV| m.shop_id == sid && m.user_id == user_id@ && matches_filter(
                    m,
                    db@,
                    filter_view(filter),
                ),
            ) =~= db@.medias.filter(
                |m: MediaV| ({
                    &&& uuid_of(shop_id@) matches Some(s)
                    &&& m.shop_id == s
                    &&& m.user_id == user_id@
                    &&& matches_filter(m, db@, filter_view(filter))
                }),
            )) by {
                lemma_filter_congruence(
                    db@.medias,
                    |m: MediaV| m.shop_id == sid && m.user_id == user_id@ && matches_filter(
                        m,
                        db@,
                        filter_view(filter),
                    ),
                    |m: MediaV| ({
                        &&& uuid_of(shop_id@) matches Some(s)
                        &&& m.shop_id == s
                        &&& m.user_id == user_id@
                        &&& matches_filter(m, db@, filter_view(filter))
                    }),
                );
            }
        }
        if count as u64 > u32::MAX as u64 {
            return Err(Error::Internal);
        }
        pagination_out.total_elements = count as u32;
        let listed = Self::arrange_and_page(db, filtered, &order_by, offset, limit);
        let resps = Self::responses_of(db, &listed);
        Ok((resps, pagination_out))
    }

    /// Reads a page of the assets accessible to the caller at the clock\'s
    /// current time; an unauthenticated caller is served an empty page.
    ///
    /// Fails with `InvalidArgument` exactly when the requested page or an
    /// offer filter is malformed, and with `Internal` only for an
    /// authenticated caller whose table is too large to count.
    pub fn list_accessible_media(
        &self,
        db: &Db,
        user_id: Option<&String>,
        filter: Option<(MediaFilterField, String)>,
        order_by: Option<(MediaOrderByField, Direction)>,
        pagination: &Option<PaginationRequest>,
    ) -> (r: Result<(Vec<MediaResponse>, PaginationResponse), Error>)
        ensures
            match r {
                Ok((resps, p)) => match user_id {
                    None => resps.len() == 0 && p.total_elements == 0,
                    Some(_) => true,
                },
                Err(e) => ({
                    let bad_page = *pagination matches Some(req) && req.page < 1;
                    let bad_filter = filter matches Some((MediaFilterField::OfferId, q))
                        && uuid_of(q@) is None;
                    if bad_page || bad_filter {
                        e == Error::InvalidArgument
                    } else {
                        e == Error::Internal && user_id is Some && db@.medias.len() > u32::MAX
                    }
                }),
            },
    {
        let now = now_unix_ts();
        let ghost gfilter = filter;
        let r = self.list_accessible_media_at(db, user_id, filter, order_by, pagination, now);
        proof {
            broadcast use Seq::lemma_filter_len;

            match user_id {
                Some(u) => {
                    assert(db@.medias.filter(
                        |m: MediaV| media_accessible(db@, m.media_id, u@, now as int)
                            && matches_filter(m, db@, filter_view(gfilter)),
                    ).len() <= db@.medias.len());
                },
                None => {},
            }
        }
        r
    }

    /// The same read against an explicit clock reading.
    pub fn list_accessible_media_at(
        &self,
        db: &Db,
        user_id: Option<&String>,
        filter: Option<(MediaFilterField, String)>,
        order_by: Option<(MediaOrderByField, Direction)>,
        pagination: &Option<PaginationRequest>,
        now: i64,
    ) -> (r: Result<(Vec<MediaResponse>, PaginationResponse), Error>)
        ensures
            match r {
                Ok((resps, p)) => match user_id {
                    None => resps.len() == 0 && p.total_elements == 0,
                    Some(u) => ({
                        let filtered = db@.medias.filter(
                            |m: MediaV| media_accessible(db@, m.media_id, u@, now as int)
                                && matches_filter(m, db@, filter_view(filter)),
                        );
                        let listed = page(
                            arranged(db@, filtered, order_by),
                            page_params(*pagination).0,
                            page_params(*pagination).1,
                        );
                        &&& resps.len() == listed.len()
                        &&& forall|i: int|
                            0 <= i < listed.len() ==> response_matches(
                                #[trigger] resps@[i],
                                listed[i],
                                db@,
                            )
                        &&& p.total_elements == filtered.len()
                    }),
                },
                Err(e) => ({
                    let bad_page = *pagination matches Some(req) && req.page < 1;
                    let bad_filter = filter matches Some((MediaFilterField::OfferId, q))
                        && uuid_of(q@) is None;
                    if bad_page || bad_filter {
                        e == Error::InvalidArgument
                    } else {
                        e == Error::Internal && (user_id matches Some(u) && db@.medias.filter(
                            |m: MediaV| media_accessible(db@, m.media_id, u@, now as int)
                                && matches_filter(m, db@, filter_view(filter)),
                        ).len() > u32::MAX)
                    }
                }),
            },
    {
        let (limit, offset, mut pagination_out) = crate::services::get_limit_offset_from_pagination(
            pagination,
        )?;
        if let Some((MediaFilterField::OfferId, q)) = &filter {
            if crate::ids::uuid_try_parse(q.as_str()).is_none() {
                return Err(Error::InvalidArgument);
            }
        }
        let u = match user_id {
            Some(u) => u,
            None => {
                pagination_out.total_elements = 0;
                return Ok((Vec::new(), pagination_out));
            },
        };
        let filtered = Self::filter_accessible_medias(db, u, now, &filter);
        let count = filtered.len();
        if count as u64 > u32::MAX as u64 {
            return Err(Error::Internal);
        }
        pagination_out.total_elements = count as u32;
        let listed = Self::arrange_and_page(db, filtered, &order_by, offset, limit);
        let resps = Self::responses_of(db, &listed);
        Ok((resps, pagination_out))
    }
}

/// Pointwise-equal predicates filter alike.
proof fn lemma_filter_congruence<T>(s: Seq<T>, p: spec_fn(T) -> bool, q: spec_fn(T) -> bool)
    requires
        forall|x: T| #[trigger] p(x) == q(x),
    ensures
        s.filter(p) == s.filter(q),
    decreases s.len(),
{
    reveal(Seq::filter);
    if s.len() > 0 {
        lemma_filter_congruence(s.drop_last(), p, q);
        assert(p(s.last()) == q(s.last()));
        if p(s.last()) {
            assert(s.filter(p) =~= s.drop_last().filter(q).push(s.last()));
        }
    }
}

/// Adding to one asset's size and then deleting that asset leaves exactly
/// the other assets.
proof fn lemma_added_then_deleted(pre: Seq<MediaV>, media_id: u128, user_id: Seq<char>, add: int)
    ensures
        medias_with_added_size(pre, media_id, user_id, add).filter(
            |m: MediaV| !(m.media_id == media_id && m.user_id == user_id),
        ) == pre.filter(|m: MediaV| !(m.media_id == media_id && m.user_id == user_id)),
    decreases pre.len(),
{
    reveal(Seq::filter);
    let f = |m: MediaV|
        if m.media_id == media_id && m.user_id == user_id {
            MediaV { size_bytes: m.size_bytes + add, ..m }
        } else {
            m
        };
    let keep = |m: MediaV| !(m.media_id == media_id && m.user_id == user_id);
    if pre.len() == 0 {
        assert(medias_with_added_size(pre, media_id, user_id, add) =~= Seq::empty());
    } else {
        lemma_added_then_deleted(pre.drop_last(), media_id, user_id, add);
        assert(medias_with_added_size(pre, media_id, user_id, add).drop_last()
            =~= medias_with_added_size(pre.drop_last(), media_id, user_id, add));
        assert(medias_with_added_size(pre, media_id, user_id, add).last() == f(pre.last()));
        assert(keep(f(pre.last())) == keep(pre.last()));
    }
}

} // verus!

