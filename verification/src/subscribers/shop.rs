//! Replay of shop events into the shop-ownership cache.

use vstd::prelude::*;

use crate::ids::uuid_of;
use crate::model::sub_shops::{find_sub_shop, upserted_sub_shops, SubShop, SubShopV};
use crate::model::Db;
use crate::services::parse_uuid;
use crate::subscribers::{action_of_subject, parse_action, ApplyOutcome, SubscriberAction};

verus! {

/// A decoded shop event: the shop and its owning user.
#[derive(Debug)]
pub struct ShopEvent {
    pub shop_id: String,
    pub user_id: String,
}

/// Applies one shop message: `upsert` replaces the cached fact wholesale,
/// `delete` removes it by shop identity. An unknown action, an unparsable
/// identifier or a delete of an absent fact skips the message and leaves
/// the cache unchanged.
pub fn handle_shop_event(db: &mut Db, subject: &str, event: &ShopEvent) -> (r: ApplyOutcome)
    requires
        old(db).wf(),
    ensures
        final(db).wf(),
        final(db)@.medias == old(db)@.medias,
        final(db)@.media_offers == old(db)@.media_offers,
        final(db)@.quotas == old(db)@.quotas,
        final(db)@.media_subscriptions == old(db)@.media_subscriptions,
        final(db)@.sub_offers == old(db)@.sub_offers,
        match action_of_subject(subject@) {
            SubscriberAction::Other => r == ApplyOutcome::Skipped && final(db)@.sub_shops == old(db)@.sub_shops,
            SubscriberAction::Upsert => match uuid_of(event.shop_id@) {
                None => r == ApplyOutcome::Skipped && final(db)@.sub_shops == old(db)@.sub_shops,
                Some(sid) => r == ApplyOutcome::Applied && final(db)@.sub_shops
                    == upserted_sub_shops(old(db)@.sub_shops, sid, event.user_id@),
            },
            SubscriberAction::Delete => match uuid_of(event.shop_id@) {
                None => r == ApplyOutcome::Skipped && final(db)@.sub_shops == old(db)@.sub_shops,
                Some(sid) => {
                    if find_sub_shop(old(db)@.sub_shops, sid) is Some {
                        r == ApplyOutcome::Applied && final(db)@.sub_shops == old(db)@.sub_shops.filter(|m: SubShopV| m.shop_id != sid)
                    } else {
                        r == ApplyOutcome::Skipped && final(db)@.sub_shops == old(db)@.sub_shops
                    }
                },
            },
        },
{
    let action = parse_action(subject);
    let sid = match parse_uuid(event.shop_id.as_str()) {
        Ok(v) => v,
        Err(_) => {
            return ApplyOutcome::Skipped;
        },
    };
    match action {
        SubscriberAction::Upsert => {
            match SubShop::upsert(db, sid, &event.user_id) {
                Ok(_) => ApplyOutcome::Applied,
                Err(_) => ApplyOutcome::Skipped,
            }
        },
        SubscriberAction::Delete => {
            match SubShop::delete(db, sid) {
                Ok(_) => ApplyOutcome::Applied,
                Err(_) => ApplyOutcome::Skipped,
            }
        },
        SubscriberAction::Other => ApplyOutcome::Skipped,
    }
}

} // verus!
