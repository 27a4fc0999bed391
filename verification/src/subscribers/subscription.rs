//! Replay of subscription-lifecycle events into the subscription cache.

use vstd::prelude::*;

use crate::clock::{now_unix_ts, unix_ts_in_range, unix_ts_validate};
use crate::ids::{uuid_of, uuid_try_parse};
use crate::model::media_subscription::{find_subscription, upserted_subscriptions,
    MediaSubscription, MediaSubscriptionV};
use crate::model::Db;
use crate::subscribers::{action_of_subject, parse_action, ApplyOutcome, SubscriberAction};

verus! {

/// A decoded subscription event, as carried on the bus: identifiers as
/// UUID strings and timestamps as unsigned UNIX seconds.
#[derive(Debug)]
pub struct SubscriptionEvent {
    pub media_subscription_id: String,
    pub buyer_user_id: String,
    pub offer_id: String,
    pub shop_id: String,
    pub current_period_start: u64,
    pub current_period_end: u64,
    pub subscription_status: String,
    pub payed_at: u64,
    pub payed_until: u64,
    pub stripe_subscription_id: Option<String>,
    pub canceled_at: Option<u64>,
    pub cancel_at: Option<u64>,
}

/// Whether an unsigned timestamp denotes a representable instant.
pub open spec fn event_ts_ok(t: u64) -> bool {
    t <= i64::MAX && unix_ts_in_range(t as i64)
}

/// An optional event timestamp carried over, dropped when out of range.
pub open spec fn event_ts_opt(t: Option<u64>) -> Option<int> {
    match t {
        Some(v) => if event_ts_ok(v) {
            Some(v as int)
        } else {
            None
        },
        None => None,
    }
}

/// Whether the whole event converts into a cached fact: every identifier
/// parses and every mandatory timestamp is representable.
pub open spec fn event_convertible(ev: SubscriptionEvent) -> bool {
    &&& uuid_of(ev.media_subscription_id@) is Some
    &&& uuid_of(ev.offer_id@) is Some
    &&& uuid_of(ev.shop_id@) is Some
    &&& event_ts_ok(ev.current_period_start)
    &&& event_ts_ok(ev.current_period_end)
    &&& event_ts_ok(ev.payed_at)
    &&& event_ts_ok(ev.payed_until)
}

/// The fact a convertible event denotes: a field-for-field projection of
/// the event, with the bookkeeping timestamps zero until the table
/// assigns them.
pub open spec fn fact_of_event(ev: SubscriptionEvent) -> MediaSubscriptionV {
    MediaSubscriptionV {
        media_subscription_id: uuid_of(ev.media_subscription_id@).unwrap(),
        buyer_user_id: ev.buyer_user_id@,
        offer_id: uuid_of(ev.offer_id@).unwrap(),
        shop_id: uuid_of(ev.shop_id@).unwrap(),
        current_period_start: ev.current_period_start as int,
        current_period_end: ev.current_period_end as int,
        subscription_status: ev.subscription_status@,
        payed_at: ev.payed_at as int,
        payed_until: ev.payed_until as int,
        created_at: 0,
        updated_at: 0,
        stripe_subscription_id: match ev.stripe_subscription_id {
            Some(ref s) => Some(s@),
            None => None,
        },
        canceled_at: event_ts_opt(ev.canceled_at),
        cancel_at: event_ts_opt(ev.cancel_at),
    }
}

/// Validates one unsigned timestamp.
fn convert_ts(t: u64) -> (r: Option<i64>)
    ensures
        r is Some <==> event_ts_ok(t),
        r matches Some(v) ==> v == t,
{
    if t > i64::MAX as u64 {
        return None;
    }
    unix_ts_validate(t as i64)
}

/// Validates an optional unsigned timestamp; an out-of-range one is
/// dropped rather than failing the event.
fn convert_ts_opt(t: &Option<u64>) -> (r: Option<i64>)
    ensures
        match r {
            Some(v) => event_ts_opt(*t) == Some(v as int),
            None => event_ts_opt(*t) is None,
        },
{
    match t {
        Some(v) => convert_ts(*v),
        None => None,
    }
}

/// Converts a decoded event into the cached fact it denotes.
///
/// Returns `None` exactly when an identifier does not parse or a
/// mandatory timestamp is not representable.
pub fn subscription_from_event(ev: &SubscriptionEvent) -> (r: Option<MediaSubscription>)
    ensures
        r is Some <==> event_convertible(*ev),
        r matches Some(m) ==> m@ == fact_of_event(*ev),
{
    let media_subscription_id = match uuid_try_parse(ev.media_subscription_id.as_str()) {
        Some(v) => v,
        None => {
            return None;
        },
    };
    let offer_id = match uuid_try_parse(ev.offer_id.as_str()) {
        Some(v) => v,
        None => {
            return None;
        },
    };
    let shop_id = match uuid_try_parse(ev.shop_id.as_str()) {
        Some(v) => v,
        None => {
            return None;
        },
    };
    let current_period_start = match convert_ts(ev.current_period_start) {
        Some(v) => v,
        None => {
            return None;
        },
    };
    let current_period_end = match convert_ts(ev.current_period_end) {
        Some(v) => v,
        None => {
            return None;
        },
    };
    let payed_at = match convert_ts(ev.payed_at) {
        Some(v) => v,
        None => {
            return None;
        },
    };
    let payed_until = match convert_ts(ev.payed_until) {
        Some(v) => v,
        None => {
            return None;
        },
    };
    let stripe_subscription_id = match &ev.stripe_subscription_id {
        Some(s) => Some(s.clone()),
        None => None,
    };
    let canceled_at = convert_ts_opt(&ev.canceled_at);
    let cancel_at = convert_ts_opt(&ev.cancel_at);
    Some(
        MediaSubscription {
            media_subscription_id,
            buyer_user_id: ev.buyer_user_id.clone(),
            offer_id,
            shop_id,
            current_period_start,
            current_period_end,
            subscription_status: ev.subscription_status.clone(),
            payed_at,
            payed_until,
            created_at: 0,
            updated_at: 0,
            stripe_subscription_id,
            canceled_at,
            cancel_at,
        },
    )
}

/// Applies one subscription message at the given clock reading: `upsert`
/// is a write-through replace of the fact — replaying it is idempotent —
/// and `delete` removes the fact by identity; deleting an absent fact is
/// a no-op, not an error. An unknown action, an unconvertible event or a
/// key conflict skips the message and leaves the cache unchanged.
pub fn handle_subscription_event_at(
    db: &mut Db,
    subject: &str,
    event: &SubscriptionEvent,
    now: i64,
) -> (r: ApplyOutcome)
    requires
        old(db).wf(),
    ensures
        final(db).wf(),
        final(db)@.medias == old(db)@.medias,
        final(db)@.media_offers == old(db)@.media_offers,
        final(db)@.quotas == old(db)@.quotas,
        final(db)@.sub_shops == old(db)@.sub_shops,
        final(db)@.sub_offers == old(db)@.sub_offers,
        !event_convertible(*event) ==> r == ApplyOutcome::Skipped && final(db)@.media_subscriptions == old(db)@.media_subscriptions,
        event_convertible(*event) ==> match action_of_subject(subject@) {
            SubscriberAction::Upsert => {
                if crate::model::media_subscription::conflicting_pair(
                    old(db)@.media_subscriptions,
                    fact_of_event(*event),
                ) {
                    r == ApplyOutcome::Skipped && final(db)@.media_subscriptions == old(db)@.media_subscriptions
                } else {
                    r == ApplyOutcome::Applied && final(db)@.media_subscriptions
                        == upserted_subscriptions(
                        old(db)@.media_subscriptions,
                        fact_of_event(*event),
                        now as int,
                    )
                }
            },
            SubscriberAction::Delete => {
                let id = fact_of_event(*event).media_subscription_id;
                if find_subscription(old(db)@.media_subscriptions, id) is Some {
                    r == ApplyOutcome::Applied && final(db)@.media_subscriptions == old(db)@.media_subscriptions.filter(
                        |m: MediaSubscriptionV| m.media_subscription_id != id,
                    )
                } else {
                    r == ApplyOutcome::Skipped && final(db)@.media_subscriptions == old(db)@.media_subscriptions
                }
            },
            SubscriberAction::Other => r == ApplyOutcome::Skipped && final(db)@.media_subscriptions == old(db)@.media_subscriptions,
        },
{
    let action = parse_action(subject);
    let fact = match subscription_from_event(event) {
        Some(m) => m,
        None => {
            return ApplyOutcome::Skipped;
        },
    };
    match action {
        SubscriberAction::Upsert => {
            match MediaSubscription::upsert(db, &fact, now) {
                Ok(_) => ApplyOutcome::Applied,
                Err(_) => ApplyOutcome::Skipped,
            }
        },
        SubscriberAction::Delete => {
            match MediaSubscription::delete(db, fact.media_subscription_id) {
                Ok(_) => ApplyOutcome::Applied,
                Err(_) => ApplyOutcome::Skipped,
            }
        },
        SubscriberAction::Other => ApplyOutcome::Skipped,
    }
}

/// The same application at the clock's current time.
pub fn handle_subscription_event(db: &mut Db, subject: &str, event: &SubscriptionEvent) -> (r:
    ApplyOutcome)
    requires
        old(db).wf(),
    ensures
        final(db).wf(),
        final(db)@.medias == old(db)@.medias,
        final(db)@.media_offers == old(db)@.media_offers,
        final(db)@.quotas == old(db)@.quotas,
        final(db)@.sub_shops == old(db)@.sub_shops,
        final(db)@.sub_offers == old(db)@.sub_offers,
        !event_convertible(*event) ==> final(db)@.media_subscriptions == old(db)@.media_subscriptions,
        action_of_subject(subject@) == SubscriberAction::Other ==> final(db)@.media_subscriptions
            == old(db)@.media_subscriptions,
{
    let now = now_unix_ts();
    handle_subscription_event_at(db, subject, event, now)
}

} // verus!
