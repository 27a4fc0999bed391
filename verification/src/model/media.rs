//! Asset records: a stored binary object plus its metadata.

use vstd::prelude::*;

use crate::model::{find_first, lemma_find_first_hit, lemma_find_first_none, lemma_find_first_some,
    Db};
use crate::Error;

verus! {

/// Column names of the asset table in the persistent schema.
#[derive(Debug)]
pub enum MediaIden {
    Table,
    MediaId,
    ShopId,
    UserId,
    CreatedAt,
    UpdatedAt,
    Name,
    DataUrl,
    SizeBytes,
    FileName,
}

impl MediaIden {
    /// The snake_case name used by storage adapters.
    pub fn sql_name(&self) -> (r: String)
        ensures
            self is Table ==> r@ == "medias"@,
            self is MediaId ==> r@ == "media_id"@,
            self is ShopId ==> r@ == "shop_id"@,
            self is UserId ==> r@ == "user_id"@,
            self is CreatedAt ==> r@ == "created_at"@,
            self is UpdatedAt ==> r@ == "updated_at"@,
            self is Name ==> r@ == "name"@,
            self is DataUrl ==> r@ == "data_url"@,
            self is SizeBytes ==> r@ == "size_bytes"@,
            self is FileName ==> r@ == "file_name"@,
    {
        match self {
            MediaIden::Table => "medias".to_owned(),
            MediaIden::MediaId => "media_id".to_owned(),
            MediaIden::ShopId => "shop_id".to_owned(),
            MediaIden::UserId => "user_id".to_owned(),
            MediaIden::CreatedAt => "created_at".to_owned(),
            MediaIden::UpdatedAt => "updated_at".to_owned(),
            MediaIden::Name => "name".to_owned(),
            MediaIden::DataUrl => "data_url".to_owned(),
            MediaIden::SizeBytes => "size_bytes".to_owned(),
            MediaIden::FileName => "file_name".to_owned(),
        }
    }
}

/// An asset: identity, owning shop, owner, timestamps, display name,
/// storage key, recorded byte size and stored file name.
#[derive(Debug)]
pub struct Media {
    pub media_id: u128,
    pub shop_id: u128,
    pub user_id: String,
    pub created_at: i64,
    pub updated_at: i64,
    pub name: String,
    pub data_url: String,
    pub size_bytes: u64,
    pub file_name: String,
}

/// Abstract view of an asset record.
#[verifier::ext_equal]
pub struct MediaV {
    pub media_id: u128,
    pub shop_id: u128,
    pub user_id: Seq<char>,
    pub created_at: int,
    pub updated_at: int,
    pub name: Seq<char>,
    pub data_url: Seq<char>,
    pub size_bytes: int,
    pub file_name: Seq<char>,
}

impl View for Media {
    type V = MediaV;

    open spec fn view(&self) -> MediaV {
        MediaV {
            media_id: self.media_id,
            shop_id: self.shop_id,
            user_id: self.user_id@,
            created_at: self.created_at as int,
            updated_at: self.updated_at as int,
            name: self.name@,
            data_url: self.data_url@,
            size_bytes: self.size_bytes as int,
            file_name: self.file_name@,
        }
    }
}

impl DeepView for Media {
    type V = MediaV;

    open spec fn deep_view(&self) -> MediaV {
        self.view()
    }
}

impl Clone for Media {
    /// A clone preserves the view.
    fn clone(&self) -> (r: Self)
        ensures
            r@ == self@,
    {
        Media {
            media_id: self.media_id,
            shop_id: self.shop_id,
            user_id: self.user_id.clone(),
            created_at: self.created_at,
            updated_at: self.updated_at,
            name: self.name.clone(),
            data_url: self.data_url.clone(),
            size_bytes: self.size_bytes,
            file_name: self.file_name.clone(),
        }
    }
}

/// The asset with `media_id`, if any.
pub open spec fn find_media(s: Seq<MediaV>, media_id: u128) -> Option<MediaV> {
    find_first(s, |m: MediaV| m.media_id == media_id)
}

/// The asset with `media_id` owned by `user_id`, if any.
pub open spec fn find_media_for_owner(s: Seq<MediaV>, media_id: u128, user_id: Seq<char>) -> Option<
    MediaV,
> {
    find_first(s, |m: MediaV| m.media_id == media_id && m.user_id == user_id)
}

/// Identities are unique; the recorded size fits the storage column.
pub open spec fn medias_wf(s: Seq<MediaV>) -> bool {
    &&& forall|i: int, j: int| 0 <= i < j < s.len() ==> s[i].media_id != s[j].media_id
    &&& forall|i: int| 0 <= i < s.len() ==> 0 <= #[trigger] s[i].size_bytes <= i64::MAX
}

/// Total bytes recorded for assets owned by `user_id`.
pub open spec fn total_size(s: Seq<MediaV>, user_id: Seq<char>) -> int
    decreases s.len(),
{
    if s.len() == 0 {
        0
    } else {
        total_size(s.drop_last(), user_id) + if s.last().user_id == user_id {
            s.last().size_bytes
        } else {
            0
        }
    }
}

impl Media {
    /// Inserts a new asset record with the given fields and `now` as both
    /// timestamps.
    ///
    /// Fails with `Internal` exactly when the identity is already taken (a
    /// key-constraint violation); the state is then unchanged.
    #[allow(clippy::too_many_arguments)]
    pub fn create(
        db: &mut Db,
        media_id: u128,
        shop_id: u128,
        user_id: &String,
        name: &String,
        file_path: &String,
        size_bytes: i64,
        file_name: &String,
        now: i64,
    ) -> (r: Result<Media, Error>)
        requires
            old(db).wf(),
            0 <= size_bytes,
        ensures
            final(db).wf(),
            final(db)@.media_offers == old(db)@.media_offers,
            final(db)@.quotas == old(db)@.quotas,
            final(db)@.media_subscriptions == old(db)@.media_subscriptions,
            final(db)@.sub_shops == old(db)@.sub_shops,
            final(db)@.sub_offers == old(db)@.sub_offers,
            match r {
                Ok(m) => {
                    &&& find_media(old(db)@.medias, media_id) is None
                    &&& m@ == (MediaV {
                        media_id,
                        shop_id,
                        user_id: user_id@,
                        created_at: now as int,
                        updated_at: now as int,
                        name: name@,
                        data_url: file_path@,
                        size_bytes: size_bytes as int,
                        file_name: file_name@,
                    })
                    &&& final(db)@.medias == old(db)@.medias.push(m@)
                },
                Err(e) => {
                    &&& e == Error::Internal
                    &&& find_media(old(db)@.medias, media_id) is Some
                    &&& final(db)@.medias == old(db)@.medias
                },
            },
    {
        let n = db.medias.len();
        for i in 0..n
            invariant
                n == db.medias.len(),
                *db == *old(db),
                old(db).wf(),
                forall|j: int| 0 <= j < i ==> db@.medias[j].media_id != media_id,
        {
            proof {
                assert(db@.medias[i as int] == db.medias@[i as int]@);
            }
            if db.medias[i].media_id == media_id {
                proof {
                    lemma_find_first_some(db@.medias, |m: MediaV| m.media_id == media_id, i as int);
                }
                return Err(Error::Internal);
            }
        }
        proof {
            lemma_find_first_none(db@.medias, |m: MediaV| m.media_id == media_id);
        }
        let m = Media {
            media_id,
            shop_id,
            user_id: user_id.clone(),
            created_at: now,
            updated_at: now,
            name: name.clone(),
            data_url: file_path.clone(),
            size_bytes: size_bytes as u64,
            file_name: file_name.clone(),
        };
        let ghost pre = db@.medias;
        db.medias.push(m.clone());
        proof {
            assert(db@.medias =~= pre.push(m@));
        }
        Ok(m)
    }

    /// Reads the asset with `media_id` if it is owned by `user_id`.
    pub fn get_for_owner(db: &Db, media_id: u128, user_id: &String) -> (r: Option<Media>)
        ensures
            r.deep_view() == find_media_for_owner(db@.medias, media_id, user_id@),
    {
        let n = db.medias.len();
        for i in 0..n
            invariant
                n == db.medias.len(),
                forall|j: int|
                    0 <= j < i ==> !(db@.medias[j].media_id == media_id && db@.medias[j].user_id
                        == user_id@),
        {
            proof {
                assert(db@.medias[i as int] == db.medias@[i as int]@);
            }
            if db.medias[i].media_id == media_id && db.medias[i].user_id == *user_id {
                proof {
                    lemma_find_first_hit(
                        db@.medias,
                        |m: MediaV| m.media_id == media_id && m.user_id == user_id@,
                        i as int,
                    );
                }
                return Some(db.medias[i].clone());
            }
        }
        proof {
            lemma_find_first_none(
                db@.medias,
                |m: MediaV| m.media_id == media_id && m.user_id == user_id@,
            );
        }
        None
    }

    /// Reads every asset owned by `user_id`, in table order.
    pub fn list_all_for_user(db: &Db, user_id: &String) -> (r: Vec<Media>)
        ensures
            r.deep_view() == db@.medias.filter(|m: MediaV| m.user_id == user_id@),
    {
        let mut out: Vec<Media> = Vec::new();
        let n = db.medias.len();
        for i in 0..n
            invariant
                n == db.medias.len(),
                out.deep_view() == db@.medias.take(i as int).filter(
                    |m: MediaV| m.user_id == user_id@,
                ),
        {
            proof {
                reveal(Seq::filter);
                assert(db@.medias[i as int] == db.medias@[i as int]@);
                assert(db@.medias.take(i + 1).drop_last() =~= db@.medias.take(i as int));
                assert(db@.medias.take(i + 1).last() == db@.medias[i as int]);
            }
            if db.medias[i].user_id == *user_id {
                let ghost preout = out.deep_view();
                out.push(db.medias[i].clone());
                proof {
                    assert(out.deep_view() =~= preout.push(db@.medias[i as int]));
                }
            }
        }
        proof {
            assert(db@.medias.take(n as int) =~= db@.medias);
        }
        out
    }

    /// Updates name, recorded size and file name of the asset owned by
    /// `user_id`, where given, and stamps `now` as the update time.
    ///
    /// Fails with `NotFound` exactly when no such owned asset exists.
    pub fn update(
        db: &mut Db,
        media_id: u128,
        user_id: &String,
        name: Option<String>,
        size_bytes: Option<i64>,
        file_name: Option<String>,
        now: i64,
    ) -> (r: Result<Media, Error>)
        requires
            old(db).wf(),
            size_bytes matches Some(s) ==> 0 <= s,
        ensures
            final(db).wf(),
            final(db)@.media_offers == old(db)@.media_offers,
            final(db)@.quotas == old(db)@.quotas,
            final(db)@.media_subscriptions == old(db)@.media_subscriptions,
            final(db)@.sub_shops == old(db)@.sub_shops,
            final(db)@.sub_offers == old(db)@.sub_offers,
            final(db)@.medias.len() == old(db)@.medias.len(),
            forall|j: int|
                0 <= j < old(db)@.medias.len() && !(old(db)@.medias[j].media_id == media_id && old(
                    db,
                )@.medias[j].user_id == user_id@) ==> final(db)@.medias[j] == old(db)@.medias[j],
            match r {
                Ok(m) => {
                    &&& find_media_for_owner(old(db)@.medias, media_id, user_id@) matches Some(pre)
                        && m@ == updated_media(pre, name.deep_view(), match size_bytes {
                        Some(v) => Some(v as int),
                        None => None,
                    }, file_name.deep_view(), now as int)
                    &&& forall|j: int|
                        0 <= j < old(db)@.medias.len() && old(db)@.medias[j].media_id == media_id
                            && old(db)@.medias[j].user_id == user_id@ ==> final(db)@.medias[j]
                            == m@
                },
                Err(e) => {
                    &&& e == Error::NotFound
                    &&& find_media_for_owner(old(db)@.medias, media_id, user_id@) is None
                    &&& final(db)@.medias == old(db)@.medias
                },
            },
    {
        let n = db.medias.len();
        for i in 0..n
            invariant
                n == db.medias.len(),
                *db == *old(db),
                old(db).wf(),
                size_bytes matches Some(s) ==> 0 <= s,
                forall|j: int|
                    0 <= j < i ==> !(db@.medias[j].media_id == media_id && db@.medias[j].user_id
                        == user_id@),
        {
            proof {
                assert(db@.medias[i as int] == db.medias@[i as int]@);
            }
            if db.medias[i].media_id == media_id && db.medias[i].user_id == *user_id {
                proof {
                    lemma_find_first_hit(
                        db@.medias,
                        |m: MediaV| m.media_id == media_id && m.user_id == user_id@,
                        i as int,
                    );
                }
                let ghost pre = db@.medias;
                let mut m = db.medias.remove(i);
                match name {
                    Some(v) => {
                        m.name = v;
                    },
                    None => {},
                }
                match size_bytes {
                    Some(v) => {
                        m.size_bytes = v as u64;
                    },
                    None => {},
                }
                match file_name {
                    Some(v) => {
                        m.file_name = v;
                    },
                    None => {},
                }
                m.updated_at = now;
                let out = m.clone();
                db.medias.insert(i, m);
                proof {
                    assert(db@.medias =~= pre.update(i as int, out@));
                    assert forall|a: int, b: int|
                        0 <= a < b < db@.medias.len() implies db@.medias[a].media_id
                        != db@.medias[b].media_id by {
                        assert(pre[a].media_id != pre[b].media_id);
                    }
                    assert forall|a: int|
                        0 <= a < db@.medias.len() implies 0 <= #[trigger] db@.medias[a].size_bytes
                        <= i64::MAX by {
                        assert(0 <= pre[a].size_bytes <= i64::MAX);
                    }
                }
                return Ok(out);
            }
        }
        proof {
            lemma_find_first_none(
                db@.medias,
                |m: MediaV| m.media_id == media_id && m.user_id == user_id@,
            );
        }
        Err(Error::NotFound)
    }

    /// Adds `additional_size` bytes to the recorded size of the asset owned
    /// by `user_id` — the only place the size is mutated incrementally.
    ///
    /// Fails with `NotFound` exactly when no such owned asset exists, and
    /// with `Internal` when the new size would leave the storage column's
    /// range; the state is then unchanged.
    pub fn add_size(db: &mut Db, media_id: u128, user_id: &String, additional_size: i64) -> (r:
        Result<Media, Error>)
        requires
            old(db).wf(),
        ensures
            final(db).wf(),
            final(db)@.media_offers == old(db)@.media_offers,
            final(db)@.quotas == old(db)@.quotas,
            final(db)@.media_subscriptions == old(db)@.media_subscriptions,
            final(db)@.sub_shops == old(db)@.sub_shops,
            final(db)@.sub_offers == old(db)@.sub_offers,
            final(db)@.medias.len() == old(db)@.medias.len(),
            forall|j: int|
                0 <= j < old(db)@.medias.len() && !(old(db)@.medias[j].media_id == media_id && old(
                    db,
                )@.medias[j].user_id == user_id@) ==> final(db)@.medias[j] == old(db)@.medias[j],
            match r {
                Ok(m) => {
                    &&& find_media_for_owner(old(db)@.medias, media_id, user_id@) matches Some(pre)
                        && 0 <= pre.size_bytes + additional_size <= i64::MAX && m@ == (MediaV {
                        size_bytes: pre.size_bytes + additional_size,
                        ..pre
                    })
                    &&& forall|j: int|
                        0 <= j < old(db)@.medias.len() && old(db)@.medias[j].media_id == media_id
                            && old(db)@.medias[j].user_id == user_id@ ==> final(db)@.medias[j]
                            == m@
                },
                Err(e) => {
                    &&& final(db)@.medias == old(db)@.medias
                    &&& match find_media_for_owner(old(db)@.medias, media_id, user_id@) {
                        Some(pre) => e == Error::Internal && !(0 <= pre.size_bytes
                            + additional_size <= i64::MAX),
                        None => e == Error::NotFound,
                    }
                },
            },
    {
        let n = db.medias.len();
        for i in 0..n
            invariant
                n == db.medias.len(),
                *db == *old(db),
                old(db).wf(),
                forall|j: int|
                    0 <= j < i ==> !(db@.medias[j].media_id == media_id && db@.medias[j].user_id
                        == user_id@),
        {
            proof {
                assert(db@.medias[i as int] == db.medias@[i as int]@);
            }
            if db.medias[i].media_id == media_id && db.medias[i].user_id == *user_id {
                proof {
                    lemma_find_first_hit(
                        db@.medias,
                        |m: MediaV| m.media_id == media_id && m.user_id == user_id@,
                        i as int,
                    );
                }
                let new_size: i128 = db.medias[i].size_bytes as i128 + additional_size as i128;
                if new_size < 0 || new_size > i64::MAX as i128 {
                    return Err(Error::Internal);
                }
                let ghost pre = db@.medias;
                let mut m = db.medias.remove(i);
                m.size_bytes = new_size as u64;
                let out = m.clone();
                db.medias.insert(i, m);
                proof {
                    assert(db@.medias =~= pre.update(i as int, out@));
                }
                return Ok(out);
            }
        }
        proof {
            lemma_find_first_none(
                db@.medias,
                |m: MediaV| m.media_id == media_id && m.user_id == user_id@,
            );
        }
        Err(Error::NotFound)
    }

    /// Removes the asset with `media_id` owned by `user_id`; removing an
    /// absent asset is a no-op.
    pub fn delete(db: &mut Db, media_id: u128, user_id: &String)
        requires
            old(db).wf(),
        ensures
            final(db).wf(),
            final(db)@.media_offers == old(db)@.media_offers,
            final(db)@.quotas == old(db)@.quotas,
            final(db)@.media_subscriptions == old(db)@.media_subscriptions,
            final(db)@.sub_shops == old(db)@.sub_shops,
            final(db)@.sub_offers == old(db)@.sub_offers,
            final(db)@.medias == old(db)@.medias.filter(
                |m: MediaV| !(m.media_id == media_id && m.user_id == user_id@),
            ),
    {
        let mut out: Vec<Media> = Vec::new();
        let n = db.medias.len();
        for i in 0..n
            invariant
                n == db.medias.len(),
                *db == *old(db),
                old(db).wf(),
                out.deep_view() == db@.medias.take(i as int).filter(
                    |m: MediaV| !(m.media_id == media_id && m.user_id == user_id@),
                ),
        {
            proof {
                reveal(Seq::filter);
                assert(db@.medias[i as int] == db.medias@[i as int]@);
                assert(db@.medias.take(i + 1).drop_last() =~= db@.medias.take(i as int));
                assert(db@.medias.take(i + 1).last() == db@.medias[i as int]);
            }
            if !(db.medias[i].media_id == media_id && db.medias[i].user_id == *user_id) {
                let ghost preout = out.deep_view();
                out.push(db.medias[i].clone());
                proof {
                    assert(out.deep_view() =~= preout.push(db@.medias[i as int]));
                }
            }
        }
        proof {
            assert(db@.medias.take(n as int) =~= db@.medias);
        }
        db.medias = out;
        proof {
            lemma_filter_keeps_wf(
                old(db)@.medias,
                |m: MediaV| !(m.media_id == media_id && m.user_id == user_id@),
            );
        }
    }
}

/// A record after an update: optional new name, size and file name, and a
/// new update timestamp.
pub open spec fn updated_media(
    pre: MediaV,
    name: Option<Seq<char>>,
    size_bytes: Option<int>,
    file_name: Option<Seq<char>>,
    now: int,
) -> MediaV {
    MediaV {
        name: match name {
            Some(v) => v,
            None => pre.name,
        },
        size_bytes: match size_bytes {
            Some(v) => v,
            None => pre.size_bytes,
        },
        file_name: match file_name {
            Some(v) => v,
            None => pre.file_name,
        },
        updated_at: now,
        ..pre
    }
}

/// Filtering rows keeps the table invariant.
proof fn lemma_filter_keeps_wf(s: Seq<MediaV>, keep: spec_fn(MediaV) -> bool)
    requires
        medias_wf(s),
    ensures
        medias_wf(s.filter(keep)),
{
    let f = s.filter(keep);
    assert forall|i: int, j: int| 0 <= i < j < f.len() implies f[i].media_id != f[j].media_id by {
        crate::model::lemma_filter_pairwise(
            s,
            keep,
            |a: MediaV, b: MediaV| a.media_id != b.media_id,
            i,
            j,
        );
    }
    assert forall|i: int| 0 <= i < f.len() implies 0 <= #[trigger] f[i].size_bytes <= i64::MAX by {
        crate::model::lemma_filter_element_of(s, keep, i);
    }
}

} // verus!
