//! The event-driven authorization cache and the reads that depend on it.

use media::model::media_subscription::MediaSubscription;
use media::model::sub_offers::SubOffer;
use media::model::sub_shops::SubShop;
use media::model::Db;
use media::files::FileService;
use media::quota::QuotaService;
use media::services::media::{MediaService, MediaUpload};
use media::services::media_subscription::MediaSubscriptionService;
use media::subscribers::shop::{handle_shop_event, ShopEvent};
use media::subscribers::offer::{handle_offer_event, OfferEvent};
use media::subscribers::subscription::{handle_subscription_event_at, SubscriptionEvent};
use media::subscribers::ApplyOutcome;
use media::Error;

const OWNER: &str = "owner";
const BUYER: &str = "buyer";
const SHOP: &str = "11111111-1111-4111-8111-111111111111";
const OFFER: &str = "22222222-2222-4222-8222-222222222222";
const SUB: &str = "44444444-4444-4444-8444-444444444444";

fn sub_event(payed_until: u64) -> SubscriptionEvent {
    SubscriptionEvent {
        media_subscription_id: SUB.to_string(),
        buyer_user_id: BUYER.to_string(),
        offer_id: OFFER.to_string(),
        shop_id: SHOP.to_string(),
        current_period_start: 1_000,
        current_period_end: payed_until,
        subscription_status: "active".to_string(),
        payed_at: 1_000,
        payed_until,
        stripe_subscription_id: Some("sub_123".to_string()),
        canceled_at: None,
        cancel_at: None,
    }
}

#[test]
fn shop_events_upsert_and_delete() {
    let mut db = Db::new();
    let ev = ShopEvent { shop_id: SHOP.to_string(), user_id: OWNER.to_string() };
    assert_eq!(handle_shop_event(&mut db, "commerce.shop.upsert", &ev), ApplyOutcome::Applied);
    assert_eq!(db.sub_shops.len(), 1);
    // Replacing the owner wholesale.
    let ev2 = ShopEvent { shop_id: SHOP.to_string(), user_id: "new-owner".to_string() };
    assert_eq!(handle_shop_event(&mut db, "commerce.shop.upsert", &ev2), ApplyOutcome::Applied);
    assert_eq!(db.sub_shops.len(), 1);
    assert_eq!(db.sub_shops[0].user_id, "new-owner");
    // An unknown action is dropped.
    assert_eq!(handle_shop_event(&mut db, "commerce.shop.archive", &ev), ApplyOutcome::Skipped);
    // Delete removes; a second delete is a no-op.
    assert_eq!(handle_shop_event(&mut db, "commerce.shop.delete", &ev), ApplyOutcome::Applied);
    assert!(db.sub_shops.is_empty());
    assert_eq!(handle_shop_event(&mut db, "commerce.shop.delete", &ev), ApplyOutcome::Skipped);
}

#[test]
fn offer_event_with_bad_identifier_is_skipped() {
    let mut db = Db::new();
    let ev = OfferEvent {
        offer_id: "garbage".to_string(),
        shop_id: SHOP.to_string(),
        user_id: OWNER.to_string(),
    };
    assert_eq!(handle_offer_event(&mut db, "commerce.offer.upsert", &ev), ApplyOutcome::Skipped);
    assert!(db.sub_offers.is_empty());
}

#[test]
fn upsert_replay_is_idempotent() {
    let mut db = Db::new();
    let ev = sub_event(9_999);
    let subject = "stripe-webhooks.subscription.upsert";
    assert_eq!(handle_subscription_event_at(&mut db, subject, &ev, 50), ApplyOutcome::Applied);
    let after_once: Vec<MediaSubscription> = db.media_subscriptions.clone();
    // Replaying the same event, even at a later clock reading, changes
    // nothing.
    assert_eq!(handle_subscription_event_at(&mut db, subject, &ev, 60), ApplyOutcome::Applied);
    assert_eq!(db.media_subscriptions.len(), 1);
    assert_eq!(format!("{:?}", after_once), format!("{:?}", db.media_subscriptions));
}

#[test]
fn delete_after_upsert_removes_and_absent_delete_is_noop() {
    let mut db = Db::new();
    let ev = sub_event(9_999);
    let upsert = "stripe-webhooks.subscription.upsert";
    let delete = "stripe-webhooks.subscription.delete";
    assert_eq!(handle_subscription_event_at(&mut db, upsert, &ev, 50), ApplyOutcome::Applied);
    assert_eq!(handle_subscription_event_at(&mut db, delete, &ev, 51), ApplyOutcome::Applied);
    assert!(db.media_subscriptions.is_empty());
    // Deleting what is already gone skips without an error.
    assert_eq!(handle_subscription_event_at(&mut db, delete, &ev, 52), ApplyOutcome::Skipped);
    assert!(db.media_subscriptions.is_empty());
}

#[test]
fn subscription_grants_and_delete_revokes_access() {
    let mut db = Db::new();
    let user = OWNER.to_string();
    let shop_id = uuid::Uuid::parse_str(SHOP).unwrap().as_u128();
    let offer_id = uuid::Uuid::parse_str(OFFER).unwrap().as_u128();
    SubShop::upsert(&mut db, shop_id, &user).unwrap();
    SubOffer::upsert(&mut db, offer_id, shop_id, &user).unwrap();
    let mut svc = MediaService::build(
        FileService::new("bucket".to_string()),
        QuotaService::new(100),
    );
    let payload = MediaUpload { content_type: "image/png".to_string(), data: vec![1u8; 4] };
    let resp = svc
        .create_media(
            &mut db,
            &user,
            &SHOP.to_string(),
            &"paywalled".to_string(),
            Some(&payload),
            &"p.png".to_string(),
        )
        .unwrap();
    let media_id_str = resp.media_id.clone();
    svc.add_media_to_offer(&mut db, &user, &media_id_str, &OFFER.to_string(), None).unwrap();

    let buyer = BUYER.to_string();
    let now: i64 = 5_000;
    // Without a subscription the read fails.
    assert_eq!(
        svc.download_media_at(&db, &buyer, &media_id_str, now).unwrap_err(),
        Error::NotFound
    );
    // A paid-up subscription fact grants the read.
    let ev = sub_event(9_999);
    handle_subscription_event_at(&mut db, "stripe-webhooks.subscription.upsert", &ev, now);
    let (key, file_name) = svc.download_media_at(&db, &buyer, &media_id_str, now).unwrap();
    assert_eq!(file_name, "p.png");
    assert!(key.ends_with(&media_id_str));
    // After the delete event for that subscription the same check fails.
    handle_subscription_event_at(&mut db, "stripe-webhooks.subscription.delete", &ev, now);
    assert_eq!(
        svc.download_media_at(&db, &buyer, &media_id_str, now).unwrap_err(),
        Error::NotFound
    );
}

#[test]
fn expired_subscription_does_not_grant_access() {
    let mut db = Db::new();
    let user = OWNER.to_string();
    let shop_id = uuid::Uuid::parse_str(SHOP).unwrap().as_u128();
    let offer_id = uuid::Uuid::parse_str(OFFER).unwrap().as_u128();
    SubShop::upsert(&mut db, shop_id, &user).unwrap();
    SubOffer::upsert(&mut db, offer_id, shop_id, &user).unwrap();
    let mut svc = MediaService::build(
        FileService::new("bucket".to_string()),
        QuotaService::new(100),
    );
    let resp = svc
        .create_media(
            &mut db,
            &user,
            &SHOP.to_string(),
            &"clip".to_string(),
            None::<&MediaUpload>,
            &"c.bin".to_string(),
        )
        .unwrap();
    svc.add_media_to_offer(&mut db, &user, &resp.media_id, &OFFER.to_string(), None).unwrap();
    let ev = sub_event(4_000);
    handle_subscription_event_at(&mut db, "stripe-webhooks.subscription.upsert", &ev, 4_000);
    // payed_until lies before `now`.
    assert_eq!(
        svc.download_media_at(&db, &BUYER.to_string(), &resp.media_id, 5_000).unwrap_err(),
        Error::NotFound
    );
}

#[test]
fn put_get_and_cancel_subscription() {
    let mut db = Db::new();
    MediaSubscriptionService::put_media_subscription(
        &mut db,
        &SUB.to_string(),
        &BUYER.to_string(),
        &OFFER.to_string(),
        &SHOP.to_string(),
        1_000,
        2_000,
        &"active".to_string(),
        1_000,
        9_999,
        Some("sub_123".to_string()),
        None,
        None,
    )
    .unwrap();
    let got = MediaSubscriptionService::get_media_subscription(
        &db,
        &BUYER.to_string(),
        &Some(SUB.to_string()),
        &None,
    )
    .unwrap();
    assert_eq!(got.media_subscription_id, SUB);
    assert_eq!(got.payed_until, 9_999);
    assert_eq!(got.subscription_status, "active");
    let action = MediaSubscriptionService::cancel_media_subscription(
        &db,
        &BUYER.to_string(),
        &SUB.to_string(),
    )
    .unwrap()
    .unwrap();
    assert_eq!(action.stripe_subscription_id, "sub_123");
    let shop_id = uuid::Uuid::parse_str(SHOP).unwrap().as_u128();
    assert_eq!(action.shop_id, shop_id);
    // Resuming resolves the same provider-side subscription.
    let resumed = MediaSubscriptionService::resume_media_subscription(
        &db,
        &BUYER.to_string(),
        &SUB.to_string(),
    )
    .unwrap()
    .unwrap();
    assert_eq!(resumed.stripe_subscription_id, "sub_123");
}

#[test]
fn replay_with_conflicting_identity_is_internal() {
    let mut db = Db::new();
    let put = |db: &mut Db, buyer: &str, offer: &str| {
        MediaSubscriptionService::put_media_subscription(
            db,
            &SUB.to_string(),
            &buyer.to_string(),
            &offer.to_string(),
            &SHOP.to_string(),
            1_000,
            2_000,
            &"active".to_string(),
            1_000,
            9_999,
            None,
            None,
            None,
        )
    };
    put(&mut db, BUYER, OFFER).unwrap();
    // The same identity under another (buyer, offer) pair violates the
    // identity key and changes nothing.
    assert_eq!(
        put(&mut db, "other-buyer", OFFER).unwrap_err(),
        Error::Internal
    );
    assert_eq!(db.media_subscriptions.len(), 1);
    // A malformed identifier is rejected before any write.
    assert_eq!(
        MediaSubscriptionService::get_media_subscription(
            &db,
            &BUYER.to_string(),
            &Some("not-a-uuid".to_string()),
            &None,
        )
        .unwrap_err(),
        Error::InvalidArgument
    );
    // No live fact of an unknown buyer matches.
    assert_eq!(
        MediaSubscriptionService::get_media_subscription(
            &db,
            &"stranger".to_string(),
            &None,
            &None,
        )
        .unwrap_err(),
        Error::NotFound
    );
}

#[test]
fn cancellation_markers_are_projected_separately() {
    let mut db = Db::new();
    let mut ev = sub_event(9_999);
    // A scheduled cancellation has `cancel_at` set long before anything
    // was actually canceled.
    ev.canceled_at = None;
    ev.cancel_at = Some(8_000);
    assert_eq!(
        handle_subscription_event_at(&mut db, "stripe-webhooks.subscription.upsert", &ev, 50),
        ApplyOutcome::Applied
    );
    let got = MediaSubscriptionService::get_media_subscription(
        &db,
        &BUYER.to_string(),
        &Some(SUB.to_string()),
        &None,
    )
    .unwrap();
    assert_eq!(got.canceled_at, None);
    assert_eq!(got.cancel_at, Some(8_000));
    // And a completed cancellation sets only `canceled_at`.
    ev.canceled_at = Some(8_500);
    ev.cancel_at = None;
    assert_eq!(
        handle_subscription_event_at(&mut db, "stripe-webhooks.subscription.upsert", &ev, 51),
        ApplyOutcome::Applied
    );
    let got = MediaSubscriptionService::get_media_subscription(
        &db,
        &BUYER.to_string(),
        &Some(SUB.to_string()),
        &None,
    )
    .unwrap();
    assert_eq!(got.canceled_at, Some(8_500));
    assert_eq!(got.cancel_at, None);
}

#[test]
fn out_of_range_timestamp_is_invalid_argument() {
    assert_eq!(
        MediaSubscriptionService::timestamp_to_datetime(u64::MAX).unwrap_err(),
        Error::InvalidArgument
    );
    assert_eq!(MediaSubscriptionService::timestamp_to_datetime(1_000).unwrap(), 1_000);
}

#[test]
fn list_subscriptions_pages_and_filters_accessibility() {
    let mut db = Db::new();
    // One subscription paid far into the future, one long expired.
    for (i, payed_until) in [(1u8, 4_000_000_000u64), (2, 20)] {
        let mut ev = sub_event(payed_until);
        ev.media_subscription_id =
            format!("44444444-4444-4444-8444-44444444444{i}");
        ev.offer_id = format!("22222222-2222-4222-8222-22222222222{i}");
        handle_subscription_event_at(
            &mut db,
            "stripe-webhooks.subscription.upsert",
            &ev,
            50,
        );
    }
    let (all, p) = MediaSubscriptionService::list_media_subscriptions(
        &db,
        &BUYER.to_string(),
        &None,
        None,
        &None,
    )
    .unwrap();
    assert_eq!(p.total_elements, 2);
    assert_eq!(all.len(), 2);
    // Only the paid-up subscription counts as accessible.
    let (live, p) = MediaSubscriptionService::list_media_subscriptions(
        &db,
        &BUYER.to_string(),
        &None,
        Some(true),
        &None,
    )
    .unwrap();
    assert_eq!(p.total_elements, 1);
    assert_eq!(live[0].payed_until, 4_000_000_000);
}
