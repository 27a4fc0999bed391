//! Listing, pagination, credentials and the small helpers.

use media::credentials::{CredentialsService, TokenState};
use media::model::media::MediaIden;
use media::model::media_quota::MediaQuotaIden;
use media::model::sub_shops::SubShop;
use media::model::Db;
use media::files::FileService;
use media::quota::QuotaService;
use media::services::media::{Direction, MediaFilterField, MediaOrderByField, MediaService,
    MediaUpload};
use media::services::{get_limit_offset_from_pagination, parse_uuid, PaginationRequest};
use media::text::u64_to_dec;
use media::Error;

const USER: &str = "lister";
const SHOP: &str = "11111111-1111-4111-8111-111111111111";

fn setup() -> (MediaService, Db) {
    let mut db = Db::new();
    let shop_id = uuid::Uuid::parse_str(SHOP).unwrap().as_u128();
    SubShop::upsert(&mut db, shop_id, &USER.to_string()).unwrap();
    let svc = MediaService::build(
        FileService::new("bucket".to_string()),
        QuotaService::new(100),
    );
    (svc, db)
}

fn add(svc: &mut MediaService, db: &mut Db, name: &str) -> String {
    svc.create_media(
        db,
        &USER.to_string(),
        &SHOP.to_string(),
        &name.to_string(),
        None::<&MediaUpload>,
        &format!("{name}.bin"),
    )
    .unwrap()
    .media_id
}

#[test]
fn list_filters_by_name() {
    let (mut svc, mut db) = setup();
    add(&mut svc, &mut db, "alpha");
    add(&mut svc, &mut db, "beta");
    add(&mut svc, &mut db, "alpha");
    let (rows, p) = svc
        .list_media(
            &db,
            &USER.to_string(),
            &SHOP.to_string(),
            Some((MediaFilterField::Name, "alpha".to_string())),
            None,
            &None,
        )
        .unwrap();
    assert_eq!(p.total_elements, 2);
    assert_eq!(rows.len(), 2);
    assert!(rows.iter().all(|r| r.name == "alpha"));
}

#[test]
fn list_orders_and_pages() {
    let (mut svc, mut db) = setup();
    for name in ["one", "two", "three", "four", "five"] {
        add(&mut svc, &mut db, name);
    }
    let (rows, p) = svc
        .list_media(
            &db,
            &USER.to_string(),
            &SHOP.to_string(),
            None,
            Some((MediaOrderByField::CreatedAt, Direction::Asc)),
            &Some(PaginationRequest { page: 2, size: 2 }),
        )
        .unwrap();
    assert_eq!(p.total_elements, 5);
    assert_eq!(p.page, 2);
    assert_eq!(rows.len(), 2);
    // With equal timestamps the stable order keeps insertion order: the
    // second page holds the third and fourth assets.
    assert_eq!(rows[0].name, "three");
    assert_eq!(rows[1].name, "four");
}

#[test]
fn list_accessible_without_user_is_empty() {
    let (svc, db) = setup();
    let (rows, p) = svc.list_accessible_media(&db, None, None, None, &None).unwrap();
    assert!(rows.is_empty());
    assert_eq!(p.total_elements, 0);
}

#[test]
fn pagination_rejects_page_zero() {
    assert_eq!(
        get_limit_offset_from_pagination(&Some(PaginationRequest { page: 0, size: 10 }))
            .unwrap_err(),
        Error::InvalidArgument
    );
    let (limit, offset, p) =
        get_limit_offset_from_pagination(&Some(PaginationRequest { page: 3, size: 7 })).unwrap();
    assert_eq!(limit, 7);
    assert_eq!(offset, 14);
    assert_eq!(p.page, 3);
    let (limit, offset, p) = get_limit_offset_from_pagination(&None).unwrap();
    assert_eq!((limit, offset), (10, 0));
    assert_eq!((p.page, p.size, p.total_elements), (1, 10, 0));
}

#[test]
fn parse_uuid_accepts_and_rejects() {
    let v = parse_uuid("a1a2a3a4-b1b2-c1c2-d1d2-d3d4d5d6d7d8").unwrap();
    assert_eq!(v, 0xa1a2a3a4b1b2c1c2d1d2d3d4d5d6d7d8u128);
    assert_eq!(parse_uuid("nope").unwrap_err(), Error::InvalidArgument);
}

#[test]
fn decimal_rendering_is_exact() {
    assert_eq!(u64_to_dec(0), "0");
    assert_eq!(u64_to_dec(7), "7");
    assert_eq!(u64_to_dec(907), "907");
    assert_eq!(u64_to_dec(u64::MAX), "18446744073709551615");
}

#[test]
fn credential_provider_decides_refresh() {
    let mut creds = CredentialsService::new(
        "https://auth.example".to_string(),
        "auth.example".to_string(),
        "client".to_string(),
        "SECRET-REDACTED".to_string(),
    );
    assert_eq!(creds.get_token_url(), "https://auth.example/v2/token");
    // The fresh provider is expired and asks for a refresh.
    assert!(creds.is_expired(1));
    assert!(matches!(creds.ensure_fresh_token(1), TokenState::NeedsRefresh));
    // A token response received at 100, valid 60 seconds, serves until 160.
    creds.apply_token_response(100, "tok".to_string(), 60);
    match creds.ensure_fresh_token(160) {
        TokenState::Fresh(t) => assert_eq!(t, "tok"),
        TokenState::NeedsRefresh => panic!("token should still be fresh"),
    }
    assert!(creds.is_expired(161));
    assert_eq!(CredentialsService::auth_header_value(&"tok".to_string()), "Bearer tok");
}

#[test]
fn column_names_match_schema() {
    assert_eq!(MediaIden::Table.sql_name(), "medias");
    assert_eq!(MediaIden::SizeBytes.sql_name(), "size_bytes");
    assert_eq!(MediaQuotaIden::Table.sql_name(), "medias_quota");
    assert_eq!(MediaQuotaIden::MaxSizeMib.sql_name(), "max_size_mib");
}

#[test]
fn list_orders_descending_by_ordering() {
    let (mut svc, mut db) = setup();
    let a = add(&mut svc, &mut db, "first");
    let b = add(&mut svc, &mut db, "second");
    let offer = "22222222-2222-4222-8222-222222222222".to_string();
    let user = USER.to_string();
    let shop_id = uuid::Uuid::parse_str(SHOP).unwrap().as_u128();
    let offer_id = uuid::Uuid::parse_str(&offer).unwrap().as_u128();
    media::model::sub_offers::SubOffer::upsert(&mut db, offer_id, shop_id, &user).unwrap();
    svc.add_media_to_offer(&mut db, &user, &a, &offer, None).unwrap();
    svc.add_media_to_offer(&mut db, &user, &b, &offer, None).unwrap();
    let (rows, _) = svc
        .list_media(
            &db,
            &user,
            &SHOP.to_string(),
            None,
            Some((MediaOrderByField::Ordering, Direction::Desc)),
            &None,
        )
        .unwrap();
    assert_eq!(rows.len(), 2);
    assert_eq!(rows[0].name, "second");
    assert_eq!(rows[0].ordering, 2);
    assert_eq!(rows[1].name, "first");
    assert_eq!(rows[1].ordering, 1);
}

#[test]
fn list_filters_by_offer() {
    let (mut svc, mut db) = setup();
    let a = add(&mut svc, &mut db, "linked");
    add(&mut svc, &mut db, "loose");
    let offer = "22222222-2222-4222-8222-222222222222".to_string();
    let user = USER.to_string();
    let shop_id = uuid::Uuid::parse_str(SHOP).unwrap().as_u128();
    let offer_id = uuid::Uuid::parse_str(&offer).unwrap().as_u128();
    media::model::sub_offers::SubOffer::upsert(&mut db, offer_id, shop_id, &user).unwrap();
    svc.add_media_to_offer(&mut db, &user, &a, &offer, None).unwrap();
    let (rows, p) = svc
        .list_media(
            &db,
            &user,
            &SHOP.to_string(),
            Some((MediaFilterField::OfferId, offer.clone())),
            None,
            &None,
        )
        .unwrap();
    assert_eq!(p.total_elements, 1);
    assert_eq!(rows[0].name, "linked");
    assert_eq!(rows[0].offer_ids, vec![offer]);
    // An unparsable offer filter is refused.
    let err = svc
        .list_media(
            &db,
            &user,
            &SHOP.to_string(),
            Some((MediaFilterField::OfferId, "junk".to_string())),
            None,
            &None,
        )
        .unwrap_err();
    assert_eq!(err, Error::InvalidArgument);
}
