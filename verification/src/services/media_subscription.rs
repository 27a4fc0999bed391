//! The subscription service: authorized replays into the cache and the
//! buyer's reads of it. Cancelling or resuming a paid subscription is
//! decided here and carried out by the payment adapter.

use vstd::prelude::*;

use crate::clock::{now_unix_ts, unix_ts_in_range, unix_ts_validate};
use crate::ids::{uuid_of, uuid_str_of, uuid_format};
use crate::model::media_subscription::{conflicting_id, list_match, page,
    put_subscriptions, query_match,
    MediaSubscription, MediaSubscriptionV};
use crate::model::{find_first, Db};
use crate::services::{get_limit_offset_from_pagination, parse_optional_uuid, parse_uuid,
    PaginationRequest, PaginationResponse};
use crate::Error;

verus! {

/// A subscription fact as returned to callers: identifiers as UUID
/// strings, timestamps as unsigned UNIX seconds.
#[derive(Debug)]
pub struct MediaSubscriptionResponse {
    pub media_subscription_id: String,
    pub buyer_user_id: String,
    pub offer_id: String,
    pub shop_id: String,
    pub current_period_start: u64,
    pub current_period_end: u64,
    pub subscription_status: String,
    pub payed_at: u64,
    pub payed_until: u64,
    pub stripe_subscription_id: Option<String>,
    pub canceled_at: Option<u64>,
    pub cancel_at: Option<u64>,
}

/// An instruction for the payment adapter: which provider-side
/// subscription of which shop to act on.
#[derive(Debug)]
pub struct StripeSubscriptionAction {
    pub shop_id: u128,
    pub stripe_subscription_id: String,
}

/// Whether every timestamp of a fact fits the response's unsigned fields.
pub open spec fn response_representable(m: MediaSubscriptionV) -> bool {
    &&& 0 <= m.current_period_start
    &&& 0 <= m.current_period_end
    &&& 0 <= m.payed_at
    &&& 0 <= m.payed_until
    &&& m.canceled_at matches Some(t) ==> 0 <= t
    &&& m.cancel_at matches Some(t) ==> 0 <= t
}

/// Whether an unsigned request timestamp denotes a representable instant.
pub open spec fn request_ts_ok(t: u64) -> bool {
    t <= i64::MAX && unix_ts_in_range(t as i64)
}

/// An optional request timestamp carried over, dropped when not
/// representable.
pub open spec fn request_ts_opt(t: Option<u64>) -> Option<int> {
    match t {
        Some(v) => if request_ts_ok(v) {
            Some(v as int)
        } else {
            None
        },
        None => None,
    }
}

/// The fact a replay request denotes, once its identifiers have parsed
/// and its mandatory timestamps validated. The bookkeeping timestamps are
/// zero until the table assigns them.
#[allow(clippy::too_many_arguments)]
pub open spec fn requested_fact(
    media_subscription_id: Seq<char>,
    buyer_user_id: Seq<char>,
    offer_id: Seq<char>,
    shop_id: Seq<char>,
    current_period_start: u64,
    current_period_end: u64,
    subscription_status: Seq<char>,
    payed_at: u64,
    payed_until: u64,
    stripe_subscription_id: Option<Seq<char>>,
    canceled_at: Option<u64>,
    cancel_at: Option<u64>,
) -> MediaSubscriptionV {
    MediaSubscriptionV {
        media_subscription_id: uuid_of(media_subscription_id).unwrap(),
        buyer_user_id,
        offer_id: uuid_of(offer_id).unwrap(),
        shop_id: uuid_of(shop_id).unwrap(),
        current_period_start: current_period_start as int,
        current_period_end: current_period_end as int,
        subscription_status,
        payed_at: payed_at as int,
        payed_until: payed_until as int,
        created_at: 0,
        updated_at: 0,
        stripe_subscription_id,
        canceled_at: request_ts_opt(canceled_at),
        cancel_at: request_ts_opt(cancel_at),
    }
}

/// Whether a response faithfully renders a listed fact.
pub open spec fn subscription_response_matches(
    resp: MediaSubscriptionResponse,
    m: MediaSubscriptionV,
) -> bool {
    &&& response_representable(m)
    &&& resp.media_subscription_id@ == uuid_str_of(m.media_subscription_id)
    &&& resp.buyer_user_id@ == m.buyer_user_id
    &&& resp.offer_id@ == uuid_str_of(m.offer_id)
    &&& resp.shop_id@ == uuid_str_of(m.shop_id)
    &&& resp.current_period_start == m.current_period_start
    &&& resp.current_period_end == m.current_period_end
    &&& resp.subscription_status@ == m.subscription_status
    &&& resp.payed_at == m.payed_at
    &&& resp.payed_until == m.payed_until
    &&& resp.stripe_subscription_id.deep_view() == m.stripe_subscription_id
}

/// The row limit and offset a pagination request denotes; without one,
/// the first page of ten rows.
pub open spec fn sub_page_params(p: Option<PaginationRequest>) -> (int, int) {
    match p {
        Some(req) => ((req.page - 1) * req.size, req.size as int),
        None => (0int, 10int),
    }
}

/// The subscription service.
pub struct MediaSubscriptionService {
}

impl MediaSubscriptionService {
    /// Validates a request timestamp given in unsigned UNIX seconds.
    ///
    /// Fails with `InvalidArgument` exactly when the timestamp does not
    /// denote a representable instant.
    pub fn timestamp_to_datetime(timestamp: u64) -> (r: Result<i64, Error>)
        ensures
            match r {
                Ok(v) => v == timestamp && timestamp <= i64::MAX && unix_ts_in_range(
                    timestamp as i64,
                ),
                Err(e) => e == Error::InvalidArgument && (timestamp > i64::MAX || !unix_ts_in_range(
                    timestamp as i64,
                )),
            },
    {
        if timestamp > i64::MAX as u64 {
            return Err(Error::InvalidArgument);
        }
        match unix_ts_validate(timestamp as i64) {
            Some(v) => Ok(v),
            None => Err(Error::InvalidArgument),
        }
    }

    /// Converts a cached fact to its response.
    ///
    /// Fails with `Internal` exactly when a stored timestamp is negative
    /// and cannot be represented.
    pub fn to_response(m: &MediaSubscription) -> (r: Result<MediaSubscriptionResponse, Error>)
        ensures
            match r {
                Ok(resp) => ({
                    &&& response_representable(m@)
                    &&& resp.media_subscription_id@ == uuid_str_of(m@.media_subscription_id)
                    &&& resp.buyer_user_id@ == m@.buyer_user_id
                    &&& resp.offer_id@ == uuid_str_of(m@.offer_id)
                    &&& resp.shop_id@ == uuid_str_of(m@.shop_id)
                    &&& resp.current_period_start == m@.current_period_start
                    &&& resp.current_period_end == m@.current_period_end
                    &&& resp.subscription_status@ == m@.subscription_status
                    &&& resp.payed_at == m@.payed_at
                    &&& resp.payed_until == m@.payed_until
                    &&& resp.stripe_subscription_id.deep_view() == m@.stripe_subscription_id
                    &&& (match (resp.canceled_at, m@.canceled_at) {
                        (Some(a), Some(b)) => a == b,
                        (None, None) => true,
                        _ => false,
                    })
                    &&& (match (resp.cancel_at, m@.cancel_at) {
                        (Some(a), Some(b)) => a == b,
                        (None, None) => true,
                        _ => false,
                    })
                }),
                Err(e) => e == Error::Internal && !response_representable(m@),
            },
    {
        if m.current_period_start < 0 || m.current_period_end < 0 || m.payed_at < 0
            || m.payed_until < 0 {
            return Err(Error::Internal);
        }
        let canceled_at = match m.canceled_at {
            Some(t) => {
                if t < 0 {
                    return Err(Error::Internal);
                }
                Some(t as u64)
            },
            None => None,
        };
        let cancel_at = match m.cancel_at {
            Some(t) => {
                if t < 0 {
                    return Err(Error::Internal);
                }
                Some(t as u64)
            },
            None => None,
        };
        Ok(
            MediaSubscriptionResponse {
                media_subscription_id: uuid_format(m.media_subscription_id),
                buyer_user_id: m.buyer_user_id.clone(),
                offer_id: uuid_format(m.offer_id),
                shop_id: uuid_format(m.shop_id),
                current_period_start: m.current_period_start as u64,
                current_period_end: m.current_period_end as u64,
                subscription_status: m.subscription_status.clone(),
                payed_at: m.payed_at as u64,
                payed_until: m.payed_until as u64,
                stripe_subscription_id: match &m.stripe_subscription_id {
                    Some(s) => Some(s.clone()),
                    None => None,
                },
                canceled_at,
                cancel_at,
            },
        )
    }

    /// Replays a subscription into the cache, keyed by its
    /// `(buyer, offer)` pair — the write path behind the authorized
    /// replay endpoint.
    ///
    /// Fails with `InvalidArgument` exactly when an identifier does not
    /// parse or a mandatory timestamp is not representable, and with
    /// `Internal` exactly when the fact's identity conflicts with a fact
    /// of another `(buyer, offer)` pair.
    #[allow(clippy::too_many_arguments)]
    pub fn put_media_subscription(
        db: &mut Db,
        media_subscription_id: &String,
        buyer_user_id: &String,
        offer_id: &String,
        shop_id: &String,
        current_period_start: u64,
        current_period_end: u64,
        subscription_status: &String,
        payed_at: u64,
        payed_until: u64,
        stripe_subscription_id: Option<String>,
        canceled_at: Option<u64>,
        cancel_at: Option<u64>,
    ) -> (r: Result<(), Error>)
        requires
            old(db).wf(),
        ensures
            final(db).wf(),
            final(db)@.medias == old(db)@.medias,
            final(db)@.media_offers == old(db)@.media_offers,
            final(db)@.quotas == old(db)@.quotas,
            final(db)@.sub_shops == old(db)@.sub_shops,
            final(db)@.sub_offers == old(db)@.sub_offers,
            match r {
                Ok(()) => ({
                    let v = requested_fact(
                        media_subscription_id@,
                        buyer_user_id@,
                        offer_id@,
                        shop_id@,
                        current_period_start,
                        current_period_end,
                        subscription_status@,
                        payed_at,
                        payed_until,
                        stripe_subscription_id.deep_view(),
                        canceled_at,
                        cancel_at,
                    );
                    &&& uuid_of(media_subscription_id@) is Some
                    &&& uuid_of(offer_id@) is Some
                    &&& uuid_of(shop_id@) is Some
                    &&& !conflicting_id(old(db)@.media_subscriptions, v)
                    &&& exists|now: int|
                        #[trigger] put_subscriptions(old(db)@.media_subscriptions, v, now) == final(db)@.media_subscriptions
                }),
                Err(e) => ({
                    let bad_id = uuid_of(media_subscription_id@) is None || uuid_of(offer_id@)
                        is None || uuid_of(shop_id@) is None;
                    let bad_ts = !request_ts_ok(current_period_start) || !request_ts_ok(
                        current_period_end,
                    ) || !request_ts_ok(payed_at) || !request_ts_ok(payed_until);
                    if bad_id || bad_ts {
                        e == Error::InvalidArgument
                    } else {
                        e == Error::Internal && conflicting_id(
                            old(db)@.media_subscriptions,
                            requested_fact(
                                media_subscription_id@,
                                buyer_user_id@,
                                offer_id@,
                                shop_id@,
                                current_period_start,
                                current_period_end,
                                subscription_status@,
                                payed_at,
                                payed_until,
                                stripe_subscription_id.deep_view(),
                                canceled_at,
                                cancel_at,
                            ),
                        )
                    }
                }),
            },
            r is Err ==> final(db)@.media_subscriptions == old(db)@.media_subscriptions,
    {
        let msid = parse_uuid(media_subscription_id.as_str())?;
        let oid = parse_uuid(offer_id.as_str())?;
        let sid = parse_uuid(shop_id.as_str())?;
        let cps = Self::timestamp_to_datetime(current_period_start)?;
        let cpe = Self::timestamp_to_datetime(current_period_end)?;
        let pat = Self::timestamp_to_datetime(payed_at)?;
        let put = Self::timestamp_to_datetime(payed_until)?;
        let canceled = match canceled_at {
            Some(t) => match Self::timestamp_to_datetime(t) {
                Ok(v) => Some(v),
                Err(_) => None,
            },
            None => None,
        };
        let cancel = match cancel_at {
            Some(t) => match Self::timestamp_to_datetime(t) {
                Ok(v) => Some(v),
                Err(_) => None,
            },
            None => None,
        };
        let sub = MediaSubscription {
            media_subscription_id: msid,
            buyer_user_id: buyer_user_id.clone(),
            offer_id: oid,
            shop_id: sid,
            current_period_start: cps,
            current_period_end: cpe,
            subscription_status: subscription_status.clone(),
            payed_at: pat,
            payed_until: put,
            created_at: 0,
            updated_at: 0,
            stripe_subscription_id,
            canceled_at: canceled,
            cancel_at: cancel,
        };
        let now = now_unix_ts();
        proof {
            assert(sub@ =~~= requested_fact(
                media_subscription_id@,
                buyer_user_id@,
                offer_id@,
                shop_id@,
                current_period_start,
                current_period_end,
                subscription_status@,
                payed_at,
                payed_until,
                stripe_subscription_id.deep_view(),
                canceled_at,
                cancel_at,
            ));
        }
        match MediaSubscription::put(db, &sub, now) {
            Ok(_) => {
                proof {
                    assert(put_subscriptions(old(db)@.media_subscriptions, sub@, now as int)
                        == final(db)@.media_subscriptions);
                }
                Ok(())
            },
            Err(e) => Err(e),
        }
    }

    /// Reads the caller's first live subscription, optionally pinned to an
    /// identity and an offer.
    ///
    /// Fails with `InvalidArgument` exactly when a given identifier does
    /// not parse, with `NotFound` exactly when no live fact matches, and
    /// with `Internal` exactly when the first matching fact cannot be
    /// represented.
    pub fn get_media_subscription(
        db: &Db,
        user_id: &String,
        media_subscription_id: &Option<String>,
        offer_id: &Option<String>,
    ) -> (r: Result<MediaSubscriptionResponse, Error>)
        ensures
            match r {
                Ok(resp) => exists|m: MediaSubscriptionV|
                    #[trigger] query_match(
                        m,
                        user_id@,
                        spec_opt_uuid(*media_subscription_id),
                        spec_opt_uuid(*offer_id),
                    ) && db@.media_subscriptions.contains(m) && resp.media_subscription_id@
                        == uuid_str_of(m.media_subscription_id),
                Err(e) => ({
                    let bad_msid = *media_subscription_id matches Some(s) && uuid_of(s@) is None;
                    let bad_oid = *offer_id matches Some(s) && uuid_of(s@) is None;
                    let found = find_first(
                        db@.media_subscriptions,
                        |m: MediaSubscriptionV| query_match(
                            m,
                            user_id@,
                            spec_opt_uuid(*media_subscription_id),
                            spec_opt_uuid(*offer_id),
                        ),
                    );
                    if bad_msid || bad_oid {
                        e == Error::InvalidArgument
                    } else {
                        match found {
                            None => e == Error::NotFound,
                            Some(m) => e == Error::Internal && !response_representable(m),
                        }
                    }
                }),
            },
    {
        let msid = parse_optional_uuid(media_subscription_id)?;
        let oid = parse_optional_uuid(offer_id)?;
        proof {
            assert((|m: MediaSubscriptionV| query_match(m, user_id@, msid, oid)) =~= (
            |m: MediaSubscriptionV| query_match(
                m,
                user_id@,
                spec_opt_uuid(*media_subscription_id),
                spec_opt_uuid(*offer_id),
            )));
        }
        let found = match MediaSubscription::get(db, user_id, msid, oid) {
            Some(m) => m,
            None => {
                return Err(Error::NotFound);
            },
        };
        proof {
            crate::model::lemma_find_first_sound(
                db@.media_subscriptions,
                |m: MediaSubscriptionV| query_match(m, user_id@, msid, oid),
            );
        }
        Self::to_response(&found)
    }

    /// Reads a page of the caller's live subscriptions at the clock's
    /// current time, optionally pinned to a shop and to those currently
    /// paid for.
    ///
    /// Fails with `InvalidArgument` exactly when the shop identifier or
    /// the requested page is malformed, and with `Internal` only when the
    /// table is too large to count or holds an unrepresentable fact.
    pub fn list_media_subscriptions(
        db: &Db,
        user_id: &String,
        shop_id: &Option<String>,
        is_accessible: Option<bool>,
        pagination: &Option<PaginationRequest>,
    ) -> (r: Result<(Vec<MediaSubscriptionResponse>, PaginationResponse), Error>)
        ensures
            match r {
                Ok(_) => true,
                Err(e) => ({
                    let bad_shop = *shop_id matches Some(s) && uuid_of(s@) is None;
                    let bad_page = *pagination matches Some(req) && req.page < 1;
                    if bad_shop || bad_page {
                        e == Error::InvalidArgument
                    } else {
                        e == Error::Internal && (db@.media_subscriptions.len() > u32::MAX || exists|
                            m: MediaSubscriptionV,
                        |
                            #[trigger] db@.media_subscriptions.contains(m)
                                && !response_representable(m))
                    }
                }),
            },
    {
        let now = now_unix_ts();
        let r = Self::list_media_subscriptions_at(
            db,
            user_id,
            shop_id,
            is_accessible,
            pagination,
            now,
        );
        proof {
            broadcast use Seq::lemma_filter_len;

            let bad_shop = shop_id matches Some(s) && uuid_of(s@) is None;
            let bad_page = *pagination matches Some(req) && req.page < 1;
            let pred = |m: MediaSubscriptionV| list_match(
                m,
                user_id@,
                spec_opt_uuid(*shop_id),
                is_accessible,
                now as int,
            );
            let found = db@.media_subscriptions.filter(pred);
            let offset = sub_page_params(*pagination).0;
            let listed = page(found, offset, sub_page_params(*pagination).1);
            if !bad_shop && !bad_page && exists|i: int|
                0 <= i < listed.len() && !response_representable(#[trigger] listed[i]) {
                match *pagination {
                    Some(req) => {
                        assert(offset == (req.page - 1) * req.size);
                        assert(0 <= offset) by (nonlinear_arith)
                            requires
                                offset == (req.page - 1) * req.size,
                                req.page >= 1,
                                req.size >= 0,
                        ;
                    },
                    None => {},
                }
                let i = choose|i: int|
                    0 <= i < listed.len() && !response_representable(#[trigger] listed[i]);
                let start: int = if offset > found.len() {
                    found.len() as int
                } else {
                    offset
                };
                assert(listed[i] == found[start + i]);
                crate::model::lemma_filter_element_of(db@.media_subscriptions, pred, start + i);
                let k = choose|k: int|
                    0 <= k < db@.media_subscriptions.len() && db@.media_subscriptions[k] == found[start
                        + i];
                assert(db@.media_subscriptions[k] == listed[i]);
                assert(db@.media_subscriptions.contains(listed[i]));
            }
        }
        r
    }

    /// The same read against an explicit clock reading.
    pub fn list_media_subscriptions_at(
        db: &Db,
        user_id: &String,
        shop_id: &Option<String>,
        is_accessible: Option<bool>,
        pagination: &Option<PaginationRequest>,
        now: i64,
    ) -> (r: Result<(Vec<MediaSubscriptionResponse>, PaginationResponse), Error>)
        ensures
            match r {
                Ok((out, p)) => ({
                    let found = db@.media_subscriptions.filter(
                        |m: MediaSubscriptionV| list_match(
                            m,
                            user_id@,
                            spec_opt_uuid(*shop_id),
                            is_accessible,
                            now as int,
                        ),
                    );
                    let listed = page(
                        found,
                        sub_page_params(*pagination).0,
                        sub_page_params(*pagination).1,
                    );
                    &&& shop_id matches Some(s) ==> uuid_of(s@) is Some
                    &&& out.len() == listed.len()
                    &&& forall|i: int|
                        0 <= i < listed.len() ==> subscription_response_matches(
                            #[trigger] out@[i],
                            listed[i],
                        )
                    &&& p.total_elements == found.len()
                }),
                Err(e) => ({
                    let bad_shop = *shop_id matches Some(s) && uuid_of(s@) is None;
                    let bad_page = *pagination matches Some(req) && req.page < 1;
                    let found = db@.media_subscriptions.filter(
                        |m: MediaSubscriptionV| list_match(
                            m,
                            user_id@,
                            spec_opt_uuid(*shop_id),
                            is_accessible,
                            now as int,
                        ),
                    );
                    let listed = page(
                        found,
                        sub_page_params(*pagination).0,
                        sub_page_params(*pagination).1,
                    );
                    if bad_shop || bad_page {
                        e == Error::InvalidArgument
                    } else {
                        e == Error::Internal && (found.len() > u32::MAX || exists|i: int|
                            0 <= i < listed.len() && !response_representable(#[trigger] listed[i]))
                    }
                }),
            },
    {
        let sid = parse_optional_uuid(shop_id)?;
        let (limit, offset, mut pagination_out) = get_limit_offset_from_pagination(pagination)?;
        proof {
            assert((|m: MediaSubscriptionV| list_match(m, user_id@, sid, is_accessible, now as int))
                =~= (|m: MediaSubscriptionV| list_match(
                m,
                user_id@,
                spec_opt_uuid(*shop_id),
                is_accessible,
                now as int,
            )));
        }
        let (found, count) = MediaSubscription::list(
            db,
            user_id,
            sid,
            is_accessible,
            limit as u64,
            offset,
            now,
        );
        if count > u32::MAX as u64 {
            return Err(Error::Internal);
        }
        pagination_out.total_elements = count as u32;
        let mut out: Vec<MediaSubscriptionResponse> = Vec::new();
        let n = found.len();
        for i in 0..n
            invariant
                n == found.len(),
                out.len() == i,
                match shop_id {
                    Some(s) => uuid_of(s@) is Some,
                    None => true,
                },
                *pagination matches Some(req) ==> req.page >= 1,
                found.deep_view() == page(
                    db@.media_subscriptions.filter(
                        |m: MediaSubscriptionV| list_match(
                            m,
                            user_id@,
                            spec_opt_uuid(*shop_id),
                            is_accessible,
                            now as int,
                        ),
                    ),
                    sub_page_params(*pagination).0,
                    sub_page_params(*pagination).1,
                ),
                forall|j: int|
                    0 <= j < i ==> subscription_response_matches(
                        #[trigger] out@[j],
                        found.deep_view()[j],
                    ),
        {
            proof {
                assert(found.deep_view()[i as int] == found@[i as int]@);
            }
            let resp = match Self::to_response(&found[i]) {
                Ok(v) => v,
                Err(e) => {
                    proof {
                        let listed = found.deep_view();
                        assert(0 <= i as int && (i as int) < listed.len()
                            && !response_representable(listed[i as int]));
                    }
                    return Err(e);
                },
            };
            out.push(resp);
        }
        Ok((out, pagination_out))
    }

    /// Decides a cancellation: resolves the caller's subscription and,
    /// when it is backed by a provider-side subscription, hands the
    /// payment adapter the action to carry out.
    ///
    /// Fails with `InvalidArgument` on a malformed identifier and with
    /// `NotFound` exactly when the caller holds no such live
    /// subscription.
    pub fn cancel_media_subscription(
        db: &Db,
        user_id: &String,
        media_subscription_id: &String,
    ) -> (r: Result<Option<StripeSubscriptionAction>, Error>)
        ensures
            match r {
                Ok(action) => exists|m: MediaSubscriptionV|
                    #[trigger] query_match(
                        m,
                        user_id@,
                        uuid_of(media_subscription_id@),
                        None::<u128>,
                    ) && db@.media_subscriptions.contains(m) && (match (
                        action,
                        m.stripe_subscription_id,
                    ) {
                        (Some(a), Some(s)) => a.stripe_subscription_id@ == s && a.shop_id
                            == m.shop_id,
                        (None, None) => true,
                        _ => false,
                    }),
                Err(e) => match uuid_of(media_subscription_id@) {
                    None => e == Error::InvalidArgument,
                    Some(_) => e == Error::NotFound && find_first(
                        db@.media_subscriptions,
                        |m: MediaSubscriptionV| query_match(
                            m,
                            user_id@,
                            uuid_of(media_subscription_id@),
                            None::<u128>,
                        ),
                    ) is None,
                },
            },
    {
        Self::resolve_stripe_action(db, user_id, media_subscription_id)
    }

    /// Decides a resumption, exactly as a cancellation is decided.
    pub fn resume_media_subscription(
        db: &Db,
        user_id: &String,
        media_subscription_id: &String,
    ) -> (r: Result<Option<StripeSubscriptionAction>, Error>)
        ensures
            match r {
                Ok(action) => exists|m: MediaSubscriptionV|
                    #[trigger] query_match(
                        m,
                        user_id@,
                        uuid_of(media_subscription_id@),
                        None::<u128>,
                    ) && db@.media_subscriptions.contains(m) && (match (
                        action,
                        m.stripe_subscription_id,
                    ) {
                        (Some(a), Some(s)) => a.stripe_subscription_id@ == s && a.shop_id
                            == m.shop_id,
                        (None, None) => true,
                        _ => false,
                    }),
                Err(e) => match uuid_of(media_subscription_id@) {
                    None => e == Error::InvalidArgument,
                    Some(_) => e == Error::NotFound && find_first(
                        db@.media_subscriptions,
                        |m: MediaSubscriptionV| query_match(
                            m,
                            user_id@,
                            uuid_of(media_subscription_id@),
                            None::<u128>,
                        ),
                    ) is None,
                },
            },
    {
        Self::resolve_stripe_action(db, user_id, media_subscription_id)
    }

    /// The shared resolution behind cancel and resume.
    fn resolve_stripe_action(
        db: &Db,
        user_id: &String,
        media_subscription_id: &String,
    ) -> (r: Result<Option<StripeSubscriptionAction>, Error>)
        ensures
            match r {
                Ok(action) => exists|m: MediaSubscriptionV|
                    #[trigger] query_match(
                        m,
                        user_id@,
                        uuid_of(media_subscription_id@),
                        None::<u128>,
                    ) && db@.media_subscriptions.contains(m) && (match (
                        action,
                        m.stripe_subscription_id,
                    ) {
                        (Some(a), Some(s)) => a.stripe_subscription_id@ == s && a.shop_id
                            == m.shop_id,
                        (None, None) => true,
                        _ => false,
                    }),
                Err(e) => match uuid_of(media_subscription_id@) {
                    None => e == Error::InvalidArgument,
                    Some(_) => e == Error::NotFound && find_first(
                        db@.media_subscriptions,
                        |m: MediaSubscriptionV| query_match(
                            m,
                            user_id@,
                            uuid_of(media_subscription_id@),
                            None::<u128>,
                        ),
                    ) is None,
                },
            },
    {
        let msid = parse_uuid(media_subscription_id.as_str())?;
        proof {
            assert((|m: MediaSubscriptionV| query_match(m, user_id@, Some(msid), None::<u128>))
                =~= (|m: MediaSubscriptionV| query_match(
                m,
                user_id@,
                uuid_of(media_subscription_id@),
                None::<u128>,
            )));
        }
        let found = match MediaSubscription::get(db, user_id, Some(msid), None) {
            Some(m) => m,
            None => {
                return Err(Error::NotFound);
            },
        };
        proof {
            crate::model::lemma_find_first_sound(
                db@.media_subscriptions,
                |m: MediaSubscriptionV| query_match(m, user_id@, Some(msid), None::<u128>),
            );
        }
        match found.stripe_subscription_id {
            Some(s) => Ok(
                Some(StripeSubscriptionAction { shop_id: found.shop_id, stripe_subscription_id: s }),
            ),
            None => Ok(None),
        }
    }
}

/// The optional parsed identifier a request named, if any.
pub open spec fn spec_opt_uuid(s: Option<String>) -> Option<u128> {
    match s {
        Some(v) => uuid_of(v@),
        None => None,
    }
}

} // verus!
