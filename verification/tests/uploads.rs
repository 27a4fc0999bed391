//! Quota-checked uploads: whole-object, multipart, and the compensating
//! cleanup on a quota breach.

use media::model::media::Media;
use media::model::sub_shops::SubShop;
use media::model::Db;
use media::files::FileService;
use media::quota::QuotaService;
use media::services::media::{MediaService, MediaUpload};
use media::Error;

const USER: &str = "uploader";
const SHOP: &str = "11111111-1111-4111-8111-111111111111";

fn setup(quota_mib: u64) -> (MediaService, Db) {
    let mut db = Db::new();
    let shop_id = uuid::Uuid::parse_str(SHOP).unwrap().as_u128();
    SubShop::upsert(&mut db, shop_id, &USER.to_string()).unwrap();
    let svc = MediaService::build(
        FileService::new("bucket".to_string()),
        QuotaService::new(quota_mib),
    );
    (svc, db)
}

#[test]
fn whole_object_put_stores_record_and_object() {
    let (mut svc, mut db) = setup(1);
    let payload = MediaUpload { content_type: "image/png".to_string(), data: vec![7u8; 16] };
    let resp = svc
        .create_media(
            &mut db,
            &USER.to_string(),
            &SHOP.to_string(),
            &"picture".to_string(),
            Some(&payload),
            &"picture.png".to_string(),
        )
        .unwrap();
    let media_id = uuid::Uuid::parse_str(&resp.media_id).unwrap().as_u128();
    let stored = Media::get_for_owner(&db, media_id, &USER.to_string()).unwrap();
    assert_eq!(stored.size_bytes, 16);
    let data = svc.file_service.get_file(&stored.data_url).unwrap();
    assert_eq!(data, vec![7u8; 16]);
}

#[test]
fn multipart_happy_path_assembles_sixty_bytes() {
    // Three chunks of sizes 10, 20 and 30 under a roomy ceiling.
    let (mut svc, mut db) = setup(1000);
    let user = USER.to_string();
    let resp = svc
        .create_media(
            &mut db,
            &user,
            &SHOP.to_string(),
            &"video".to_string(),
            None::<&MediaUpload>,
            &"video.bin".to_string(),
        )
        .unwrap();
    let media_id_str = resp.media_id.clone();
    let media_id = uuid::Uuid::parse_str(&media_id_str).unwrap().as_u128();

    let (key, upload_id) = svc
        .initiate_multipart_upload(&mut db, &user, &media_id_str, &"video/mp4".to_string())
        .unwrap();

    let mut parts = Vec::new();
    for (number, size) in [(1u32, 10usize), (2, 20), (3, 30)] {
        let chunk = vec![number as u8; size];
        let part = svc
            .put_multipart_chunk(&mut db, &user, &media_id_str, upload_id, number, &chunk)
            .unwrap();
        assert_eq!(part.part_number, number);
        parts.push(part);
    }

    let stored = Media::get_for_owner(&db, media_id, &user).unwrap();
    assert_eq!(stored.size_bytes, 60);

    svc.complete_multipart_upload(&db, &user, &media_id_str, upload_id, &parts).unwrap();
    let data = svc.file_service.get_file(&key).unwrap();
    assert_eq!(data.len(), 60);
    assert_eq!(&data[..10], &[1u8; 10][..]);
    assert_eq!(&data[10..30], &[2u8; 20][..]);
    assert_eq!(&data[30..], &[3u8; 30][..]);
}

#[test]
fn quota_breach_mid_upload_cleans_up() {
    // A zero ceiling: the first recorded chunk breaches it.
    let (mut svc, mut db) = setup(0);
    let user = USER.to_string();
    let resp = svc
        .create_media(
            &mut db,
            &user,
            &SHOP.to_string(),
            &"big".to_string(),
            None::<&MediaUpload>,
            &"big.bin".to_string(),
        )
        .unwrap();
    let media_id_str = resp.media_id.clone();
    let media_id = uuid::Uuid::parse_str(&media_id_str).unwrap().as_u128();

    let (key, upload_id) = svc
        .initiate_multipart_upload(&mut db, &user, &media_id_str, &"video/mp4".to_string())
        .unwrap();

    let chunk = vec![9u8; 100];
    let err = svc
        .put_multipart_chunk(&mut db, &user, &media_id_str, upload_id, 1, &chunk)
        .unwrap_err();
    assert_eq!(err, Error::QuotaExceeded);

    // The asset row no longer exists, the store holds no object under the
    // key, and the upload is closed.
    assert!(Media::get_for_owner(&db, media_id, &user).is_none());
    assert_eq!(svc.file_service.get_file(&key).unwrap_err(), Error::NotFound);
    assert_eq!(
        svc.file_service.abort_multipart_upload(&key, upload_id).unwrap_err(),
        Error::Transient
    );
}

#[test]
fn check_quota_boundary_is_exact() {
    let (mut svc, mut db) = setup(1);
    let user = USER.to_string();
    // Exactly one MiB is allowed; one byte more is not.
    let payload = MediaUpload { content_type: "b".to_string(), data: vec![0u8; 1048576] };
    svc.create_media(
        &mut db,
        &user,
        &SHOP.to_string(),
        &"fill".to_string(),
        Some(&payload),
        &"fill.bin".to_string(),
    )
    .unwrap();
    assert!(svc.quota_service.check_quota(&mut db, &user).is_ok());
    // The check is advisory: it runs before the write, so the byte that
    // crosses the ceiling is still admitted...
    let more = MediaUpload { content_type: "b".to_string(), data: vec![0u8; 1] };
    svc.create_media(
        &mut db,
        &user,
        &SHOP.to_string(),
        &"one-more".to_string(),
        Some(&more),
        &"more.bin".to_string(),
    )
    .unwrap();
    // ...and only the next attempt fails.
    assert_eq!(svc.quota_service.check_quota(&mut db, &user).unwrap_err(), Error::QuotaExceeded);
    let err = svc
        .create_media(
            &mut db,
            &user,
            &SHOP.to_string(),
            &"rejected".to_string(),
            None::<&MediaUpload>,
            &"r.bin".to_string(),
        )
        .unwrap_err();
    assert_eq!(err, Error::QuotaExceeded);
}

#[test]
fn quota_record_is_materialized_on_first_check() {
    let (svc, mut db) = setup(17);
    let user = "fresh-user".to_string();
    assert!(db.quotas.is_empty());
    let quota = svc.quota_service.ensure_user_quota(&mut db, &user);
    assert_eq!(quota.user_id, user);
    assert_eq!(quota.max_size_mib, 17);
    assert_eq!(db.quotas.len(), 1);
    // A second check reuses the record.
    svc.quota_service.ensure_user_quota(&mut db, &user);
    assert_eq!(db.quotas.len(), 1);
}

#[test]
fn complete_rejects_bad_tags_and_order() {
    let (mut svc, mut db) = setup(1000);
    let user = USER.to_string();
    let resp = svc
        .create_media(
            &mut db,
            &user,
            &SHOP.to_string(),
            &"clip".to_string(),
            None::<&MediaUpload>,
            &"clip.bin".to_string(),
        )
        .unwrap();
    let media_id_str = resp.media_id.clone();
    let (_key, upload_id) = svc
        .initiate_multipart_upload(&mut db, &user, &media_id_str, &"video/mp4".to_string())
        .unwrap();
    let p1 = svc
        .put_multipart_chunk(&mut db, &user, &media_id_str, upload_id, 1, &vec![1u8; 4])
        .unwrap();
    let p2 = svc
        .put_multipart_chunk(&mut db, &user, &media_id_str, upload_id, 2, &vec![2u8; 4])
        .unwrap();
    // Descending order is refused.
    let err = svc
        .complete_multipart_upload(
            &db,
            &user,
            &media_id_str,
            upload_id,
            &vec![
                media::files::Part { part_number: p2.part_number, etag: p2.etag.clone() },
                media::files::Part { part_number: p1.part_number, etag: p1.etag.clone() },
            ],
        )
        .unwrap_err();
    assert_eq!(err, Error::Transient);
    // A wrong tag is refused.
    let err = svc
        .complete_multipart_upload(
            &db,
            &user,
            &media_id_str,
            upload_id,
            &vec![media::files::Part { part_number: 1, etag: "wrong".to_string() }],
        )
        .unwrap_err();
    assert_eq!(err, Error::Transient);
}

#[test]
fn update_media_replaces_payload_and_name() {
    let (mut svc, mut db) = setup(10);
    let user = USER.to_string();
    let payload = MediaUpload { content_type: "text/plain".to_string(), data: vec![1u8; 8] };
    let resp = svc
        .create_media(
            &mut db,
            &user,
            &SHOP.to_string(),
            &"old-name".to_string(),
            Some(&payload),
            &"old.txt".to_string(),
        )
        .unwrap();
    let media_id_str = resp.media_id.clone();
    let media_id = uuid::Uuid::parse_str(&media_id_str).unwrap().as_u128();
    let new_payload = MediaUpload { content_type: "text/plain".to_string(), data: vec![2u8; 3] };
    let updated = svc
        .update_media(
            &mut db,
            &user,
            &media_id_str,
            Some("new-name".to_string()),
            Some(&new_payload),
            Some("new.txt".to_string()),
        )
        .unwrap();
    assert_eq!(updated.name, "new-name");
    assert_eq!(updated.file_name, "new.txt");
    let stored = Media::get_for_owner(&db, media_id, &user).unwrap();
    assert_eq!(stored.size_bytes, 3);
    let data = svc.file_service.get_file(&stored.data_url).unwrap();
    assert_eq!(data, vec![2u8; 3]);
}

#[test]
fn delete_media_removes_record_and_object() {
    let (mut svc, mut db) = setup(10);
    let user = USER.to_string();
    let payload = MediaUpload { content_type: "b".to_string(), data: vec![5u8; 4] };
    let resp = svc
        .create_media(
            &mut db,
            &user,
            &SHOP.to_string(),
            &"gone".to_string(),
            Some(&payload),
            &"gone.bin".to_string(),
        )
        .unwrap();
    let media_id_str = resp.media_id.clone();
    let media_id = uuid::Uuid::parse_str(&media_id_str).unwrap().as_u128();
    let key = Media::get_for_owner(&db, media_id, &user).unwrap().data_url;
    svc.delete_media(&mut db, &user, &media_id_str).unwrap();
    assert!(Media::get_for_owner(&db, media_id, &user).is_none());
    assert_eq!(svc.file_service.get_file(&key).unwrap_err(), Error::NotFound);
}

#[test]
fn create_media_under_unowned_shop_is_not_found() {
    let (mut svc, mut db) = setup(10);
    let err = svc
        .create_media(
            &mut db,
            &"somebody-else".to_string(),
            &SHOP.to_string(),
            &"nope".to_string(),
            None::<&MediaUpload>,
            &"nope.bin".to_string(),
        )
        .unwrap_err();
    assert_eq!(err, Error::NotFound);
}
