//! Attach, reorder and detach of asset/offer associations.

use media::model::media_offer::MediaOffer;
use media::model::sub_offers::SubOffer;
use media::model::sub_shops::SubShop;
use media::model::Db;
use media::files::FileService;
use media::quota::QuotaService;
use media::services::media::{MediaService, MediaUpload};
use media::Error;

const USER: &str = "user-1";
const SHOP: &str = "11111111-1111-4111-8111-111111111111";
const OFFER: &str = "22222222-2222-4222-8222-222222222222";

fn setup() -> (MediaService, Db) {
    let mut db = Db::new();
    let shop_id = uuid::Uuid::parse_str(SHOP).unwrap().as_u128();
    let offer_id = uuid::Uuid::parse_str(OFFER).unwrap().as_u128();
    SubShop::upsert(&mut db, shop_id, &USER.to_string()).unwrap();
    SubOffer::upsert(&mut db, offer_id, shop_id, &USER.to_string()).unwrap();
    let svc = MediaService::build(
        FileService::new("bucket".to_string()),
        QuotaService::new(1024),
    );
    (svc, db)
}

fn create_asset(svc: &mut MediaService, db: &mut Db, name: &str) -> String {
    let resp = svc
        .create_media(
            db,
            &USER.to_string(),
            &SHOP.to_string(),
            &name.to_string(),
            None::<&MediaUpload>,
            &format!("{name}.bin"),
        )
        .unwrap();
    resp.media_id
}

fn orderings(db: &Db, offer_id: u128) -> Vec<(String, i64)> {
    let mut rows: Vec<(String, i64)> = MediaOffer::list(db, &USER.to_string(), offer_id)
        .into_iter()
        .map(|mo| (uuid::Uuid::from_u128(mo.media_id).hyphenated().to_string(), mo.ordering))
        .collect();
    rows.sort_by_key(|r| r.1);
    rows
}

#[test]
fn reorder_moves_and_shifts() {
    let (mut svc, mut db) = setup();
    let a = create_asset(&mut svc, &mut db, "a");
    let b = create_asset(&mut svc, &mut db, "b");
    let c = create_asset(&mut svc, &mut db, "c");
    let d = create_asset(&mut svc, &mut db, "d");
    let offer = OFFER.to_string();
    let user = USER.to_string();
    for (m, ord) in [(&a, 0), (&b, 1), (&c, 2), (&d, 3)] {
        svc.add_media_to_offer(&mut db, &user, m, &offer, Some(ord)).unwrap();
    }
    svc.update_media_offer_ordering(&mut db, &user, &d, &offer, 1).unwrap();
    let offer_id = uuid::Uuid::parse_str(OFFER).unwrap().as_u128();
    let rows = orderings(&db, offer_id);
    assert_eq!(
        rows,
        vec![(a.clone(), 0), (d.clone(), 1), (b.clone(), 2), (c.clone(), 3)]
    );
}

#[test]
fn reorder_at_current_position_is_noop() {
    let (mut svc, mut db) = setup();
    let a = create_asset(&mut svc, &mut db, "a");
    let b = create_asset(&mut svc, &mut db, "b");
    let offer = OFFER.to_string();
    let user = USER.to_string();
    svc.add_media_to_offer(&mut db, &user, &a, &offer, None).unwrap();
    svc.add_media_to_offer(&mut db, &user, &b, &offer, None).unwrap();
    let offer_id = uuid::Uuid::parse_str(OFFER).unwrap().as_u128();
    let before = orderings(&db, offer_id);
    svc.update_media_offer_ordering(&mut db, &user, &b, &offer, 2).unwrap();
    assert_eq!(before, orderings(&db, offer_id));
}

#[test]
fn attach_appends_densely_from_one() {
    let (mut svc, mut db) = setup();
    let a = create_asset(&mut svc, &mut db, "a");
    let b = create_asset(&mut svc, &mut db, "b");
    let c = create_asset(&mut svc, &mut db, "c");
    let offer = OFFER.to_string();
    let user = USER.to_string();
    for m in [&a, &b, &c] {
        svc.add_media_to_offer(&mut db, &user, m, &offer, None).unwrap();
    }
    let offer_id = uuid::Uuid::parse_str(OFFER).unwrap().as_u128();
    let rows = orderings(&db, offer_id);
    let ords: Vec<i64> = rows.iter().map(|r| r.1).collect();
    assert_eq!(ords, vec![1, 2, 3]);
}

#[test]
fn detach_leaves_gap_untouched() {
    let (mut svc, mut db) = setup();
    let a = create_asset(&mut svc, &mut db, "a");
    let b = create_asset(&mut svc, &mut db, "b");
    let c = create_asset(&mut svc, &mut db, "c");
    let offer = OFFER.to_string();
    let user = USER.to_string();
    for m in [&a, &b, &c] {
        svc.add_media_to_offer(&mut db, &user, m, &offer, None).unwrap();
    }
    svc.remove_media_from_offer(&mut db, &user, &b, &offer).unwrap();
    let offer_id = uuid::Uuid::parse_str(OFFER).unwrap().as_u128();
    let ords: Vec<i64> = orderings(&db, offer_id).iter().map(|r| r.1).collect();
    assert_eq!(ords, vec![1, 3]);
}

#[test]
fn attach_to_unowned_offer_is_not_found() {
    let (mut svc, mut db) = setup();
    let a = create_asset(&mut svc, &mut db, "a");
    let other_offer = "33333333-3333-4333-8333-333333333333".to_string();
    let err = svc
        .add_media_to_offer(&mut db, &USER.to_string(), &a, &other_offer, None)
        .unwrap_err();
    assert_eq!(err, Error::NotFound);
}

#[test]
fn attach_twice_is_rejected() {
    let (mut svc, mut db) = setup();
    let a = create_asset(&mut svc, &mut db, "a");
    let offer = OFFER.to_string();
    let user = USER.to_string();
    svc.add_media_to_offer(&mut db, &user, &a, &offer, None).unwrap();
    let err = svc.add_media_to_offer(&mut db, &user, &a, &offer, None).unwrap_err();
    assert_eq!(err, Error::Internal);
}

#[test]
fn malformed_identifier_is_invalid_argument() {
    let (mut svc, mut db) = setup();
    let err = svc
        .update_media_offer_ordering(
            &mut db,
            &USER.to_string(),
            &"not-a-uuid".to_string(),
            &OFFER.to_string(),
            1,
        )
        .unwrap_err();
    assert_eq!(err, Error::InvalidArgument);
}

#[test]
fn reorder_downward_shifts_up() {
    let (mut svc, mut db) = setup();
    let a = create_asset(&mut svc, &mut db, "a");
    let b = create_asset(&mut svc, &mut db, "b");
    let c = create_asset(&mut svc, &mut db, "c");
    let d = create_asset(&mut svc, &mut db, "d");
    let offer = OFFER.to_string();
    let user = USER.to_string();
    for m in [&a, &b, &c, &d] {
        svc.add_media_to_offer(&mut db, &user, m, &offer, None).unwrap();
    }
    // [a:1, b:2, c:3, d:4]; moving a to 3 shifts b and c down by one.
    svc.update_media_offer_ordering(&mut db, &user, &a, &offer, 3).unwrap();
    let offer_id = uuid::Uuid::parse_str(OFFER).unwrap().as_u128();
    let rows = orderings(&db, offer_id);
    assert_eq!(
        rows,
        vec![(b.clone(), 1), (c.clone(), 2), (a.clone(), 3), (d.clone(), 4)]
    );
}
