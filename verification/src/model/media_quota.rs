//! Per-user storage quota records.

use vstd::prelude::*;

use crate::model::{find_first, lemma_find_first_hit, lemma_find_first_none, lemma_find_first_some,
    Db};
use crate::Error;

verus! {

/// Column names of the quota table in the persistent schema.
#[derive(Debug)]
pub enum MediaQuotaIden {
    Table,
    UserId,
    MaxSizeMib,
}

impl MediaQuotaIden {
    /// The snake_case name used by storage adapters.
    pub fn sql_name(&self) -> (r: String)
        ensures
            self is Table ==> r@ == "medias_quota"@,
            self is UserId ==> r@ == "user_id"@,
            self is MaxSizeMib ==> r@ == "max_size_mib"@,
    {
        match self {
            MediaQuotaIden::Table => "medias_quota".to_owned(),
            MediaQuotaIden::UserId => "user_id".to_owned(),
            MediaQuotaIden::MaxSizeMib => "max_size_mib".to_owned(),
        }
    }
}

/// A user's ceiling on total stored bytes, in MiB.
#[derive(Debug)]
pub struct MediaQuota {
    pub user_id: String,
    pub max_size_mib: u64,
}

/// Abstract view of a quota record.
#[verifier::ext_equal]
pub struct MediaQuotaV {
    pub user_id: Seq<char>,
    pub max_size_mib: int,
}

impl View for MediaQuota {
    type V = MediaQuotaV;

    open spec fn view(&self) -> MediaQuotaV {
        MediaQuotaV { user_id: self.user_id@, max_size_mib: self.max_size_mib as int }
    }
}

impl DeepView for MediaQuota {
    type V = MediaQuotaV;

    open spec fn deep_view(&self) -> MediaQuotaV {
        self.view()
    }
}

impl Clone for MediaQuota {
    /// A clone preserves the view.
    fn clone(&self) -> (r: Self)
        ensures
            r@ == self@,
    {
        MediaQuota { user_id: self.user_id.clone(), max_size_mib: self.max_size_mib }
    }
}

/// The quota record of `user_id`, if any.
pub open spec fn find_quota(s: Seq<MediaQuotaV>, user_id: Seq<char>) -> Option<MediaQuotaV> {
    find_first(s, |q: MediaQuotaV| q.user_id == user_id)
}

/// One record per user; the ceiling fits the storage column.
pub open spec fn quotas_wf(s: Seq<MediaQuotaV>) -> bool {
    &&& forall|i: int, j: int|
        0 <= i < j < s.len() ==> s[i].user_id != s[j].user_id
    &&& forall|i: int| 0 <= i < s.len() ==> s[i].max_size_mib <= i64::MAX
}

impl MediaQuota {
    /// Reads the quota record of `user_id`.
    pub fn get(db: &Db, user_id: &String) -> (r: Option<MediaQuota>)
        ensures
            r.deep_view() == find_quota(db@.quotas, user_id@),
    {
        let n = db.quotas.len();
        for i in 0..n
            invariant
                n == db.quotas.len(),
                forall|j: int| 0 <= j < i ==> db@.quotas[j].user_id != user_id@,
        {
            if db.quotas[i].user_id == *user_id {
                proof {
                    lemma_find_first_hit(
                        db@.quotas,
                        |q: MediaQuotaV| q.user_id == user_id@,
                        i as int,
                    );
                }
                return Some(db.quotas[i].clone());
            }
        }
        proof {
            lemma_find_first_none(db@.quotas, |q: MediaQuotaV| q.user_id == user_id@);
        }
        None
    }

    /// Creates the quota record of `user_id` with the given ceiling.
    ///
    /// Fails with `Internal` exactly when a record for the user already
    /// exists (a key-constraint violation); the state is then unchanged.
    pub fn create(db: &mut Db, user_id: &String, max_size_mib: u64) -> (r: Result<
        MediaQuota,
        Error,
    >)
        requires
            old(db).wf(),
            max_size_mib <= i64::MAX,
        ensures
            final(db).wf(),
            final(db)@.medias == old(db)@.medias,
            final(db)@.media_offers == old(db)@.media_offers,
            final(db)@.media_subscriptions == old(db)@.media_subscriptions,
            final(db)@.sub_shops == old(db)@.sub_shops,
            final(db)@.sub_offers == old(db)@.sub_offers,
            match r {
                Ok(q) => {
                    &&& find_quota(old(db)@.quotas, user_id@) is None
                    &&& q@ == (MediaQuotaV { user_id: user_id@, max_size_mib: max_size_mib as int })
                    &&& final(db)@.quotas == old(db)@.quotas.push(q@)
                },
                Err(e) => {
                    &&& e == Error::Internal
                    &&& find_quota(old(db)@.quotas, user_id@) is Some
                    &&& final(db)@.quotas == old(db)@.quotas
                },
            },
    {
        if Self::get(db, user_id).is_some() {
            return Err(Error::Internal);
        }
        let q = MediaQuota { user_id: user_id.clone(), max_size_mib };
        let ghost pre = db@.quotas;
        db.quotas.push(q.clone());
        proof {
            assert(db@.quotas =~= pre.push(q@));
            assert forall|j: int| 0 <= j < pre.len() implies pre[j].user_id != user_id@ by {
                if pre[j].user_id == user_id@ {
                    lemma_find_first_some(pre, |q: MediaQuotaV| q.user_id == user_id@, j);
                }
            }
        }
        Ok(q)
    }
}

} // verus!
