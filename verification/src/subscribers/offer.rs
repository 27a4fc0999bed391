//! Replay of offer events into the offer-ownership cache.

use vstd::prelude::*;

use crate::ids::uuid_of;
use crate::model::sub_offers::{find_sub_offer, upserted_sub_offers, SubOffer, SubOfferV};
use crate::model::Db;
use crate::services::parse_uuid;
use crate::subscribers::{action_of_subject, parse_action, ApplyOutcome, SubscriberAction};

verus! {

/// A decoded offer event: the offer, its shop and its owning user.
#[derive(Debug)]
pub struct OfferEvent {
    pub offer_id: String,
    pub shop_id: String,
    pub user_id: String,
}

/// Applies one offer message: `upsert` replaces the cached fact
/// wholesale, `delete` removes it by offer identity. An unknown action,
/// an unparsable identifier or a delete of an absent fact skips the
/// message and leaves the cache unchanged.
pub fn handle_offer_event(db: &mut Db, subject: &str, event: &OfferEvent) -> (r: ApplyOutcome)
    requires
        old(db).wf(),
    ensures
        final(db).wf(),
        final(db)@.medias == old(db)@.medias,
        final(db)@.media_offers == old(db)@.media_offers,
        final(db)@.quotas == old(db)@.quotas,
        final(db)@.media_subscriptions == old(db)@.media_subscriptions,
        final(db)@.sub_shops == old(db)@.sub_shops,
        match (action_of_subject(subject@), uuid_of(event.offer_id@), uuid_of(event.shop_id@)) {
            (SubscriberAction::Upsert, Some(oid), Some(sid)) => r == ApplyOutcome::Applied && final(db)@.sub_offers == upserted_sub_offers(old(db)@.sub_offers, oid, sid, event.user_id@),
            (SubscriberAction::Delete, Some(oid), Some(_)) => {
                if find_sub_offer(old(db)@.sub_offers, oid) is Some {
                    r == ApplyOutcome::Applied && final(db)@.sub_offers == old(db)@.sub_offers.filter(|m: SubOfferV| m.offer_id != oid)
                } else {
                    r == ApplyOutcome::Skipped && final(db)@.sub_offers == old(db)@.sub_offers
                }
            },
            _ => r == ApplyOutcome::Skipped && final(db)@.sub_offers == old(db)@.sub_offers,
        },
{
    let action = parse_action(subject);
    let oid = match parse_uuid(event.offer_id.as_str()) {
        Ok(v) => v,
        Err(_) => {
            return ApplyOutcome::Skipped;
        },
    };
    let sid = match parse_uuid(event.shop_id.as_str()) {
        Ok(v) => v,
        Err(_) => {
            return ApplyOutcome::Skipped;
        },
    };
    match action {
        SubscriberAction::Upsert => {
            match SubOffer::upsert(db, oid, sid, &event.user_id) {
                Ok(_) => ApplyOutcome::Applied,
                Err(_) => ApplyOutcome::Skipped,
            }
        },
        SubscriberAction::Delete => {
            match SubOffer::delete(db, oid) {
                Ok(_) => ApplyOutcome::Applied,
                Err(_) => ApplyOutcome::Skipped,
            }
        },
        SubscriberAction::Other => ApplyOutcome::Skipped,
    }
}

} // verus!
