//! The quota ledger: per-user ceilings on total stored bytes.

use vstd::prelude::*;

use crate::model::media::total_size;
use crate::model::media_quota::{find_quota, MediaQuota, MediaQuotaV};
use crate::model::{lemma_find_first_sound, Db};
use crate::Error;

verus! {

/// Bytes in one MiB.
pub const MIB: u64 = 1048576;

/// The quota table after a check: the existing record, or a fresh one
/// with the default ceiling, materialized on first use.
pub open spec fn ensured_quotas(pre: Seq<MediaQuotaV>, user_id: Seq<char>, default_mib: int) -> Seq<
    MediaQuotaV,
> {
    if find_quota(pre, user_id) is Some {
        pre
    } else {
        pre.push(MediaQuotaV { user_id, max_size_mib: default_mib })
    }
}

/// The ceiling in MiB that a check compares against.
pub open spec fn effective_ceiling_mib(
    pre: Seq<MediaQuotaV>,
    user_id: Seq<char>,
    default_mib: int,
) -> int {
    match find_quota(pre, user_id) {
        Some(q) => q.max_size_mib,
        None => default_mib,
    }
}

/// Checks stored bytes of a user against the user's ceiling, materializing
/// a default quota record on first use.
pub struct QuotaService {
    pub default_user_quota_mib: u64,
}

impl QuotaService {
    /// The default ceiling fits the storage column.
    pub open spec fn wf(self) -> bool {
        self.default_user_quota_mib <= i64::MAX
    }

    pub fn new(default_user_quota_mib: u64) -> (s: Self)
        requires
            default_user_quota_mib <= i64::MAX,
        ensures
            s.wf(),
            s.default_user_quota_mib == default_user_quota_mib,
    {
        QuotaService { default_user_quota_mib }
    }

    /// Whether `total_bytes` exceeds a ceiling given in MiB.
    fn quota_reached(total_bytes: u128, max_size_mib: u64) -> (r: bool)
        ensures
            r == (total_bytes > max_size_mib * MIB),
    {
        total_bytes > (max_size_mib as u128) * (MIB as u128)
    }

    /// Sums the recorded sizes of every asset owned by `user_id`.
    fn total_user_bytes(db: &Db, user_id: &String) -> (r: u128)
        requires
            db.wf(),
        ensures
            r == total_size(db@.medias, user_id@),
    {
        let mut acc: u128 = 0;
        let n = db.medias.len();
        for i in 0..n
            invariant
                n == db.medias.len(),
                db.wf(),
                acc == total_size(db@.medias.take(i as int), user_id@),
                acc as int <= i * (i64::MAX as int),
        {
            proof {
                assert(db@.medias[i as int] == db.medias@[i as int]@);
                assert(db@.medias.take(i + 1).drop_last() =~= db@.medias.take(i as int));
                assert(db@.medias.take(i + 1).last() == db@.medias[i as int]);
                assert((i + 1) * (i64::MAX as int) == i * (i64::MAX as int) + i64::MAX)
                    by (nonlinear_arith);
                assert(0 <= db@.medias[i as int].size_bytes <= i64::MAX);
            }
            if db.medias[i].user_id == *user_id {
                acc = acc + db.medias[i].size_bytes as u128;
            }
        }
        proof {
            assert(db@.medias.take(n as int) =~= db@.medias);
        }
        acc
    }

    /// Returns the user's quota record, creating one with the default
    /// ceiling if none exists yet.
    pub fn ensure_user_quota(&self, db: &mut Db, user_id: &String) -> (r: MediaQuota)
        requires
            old(db).wf(),
            self.wf(),
        ensures
            final(db).wf(),
            final(db)@.medias == old(db)@.medias,
            final(db)@.media_offers == old(db)@.media_offers,
            final(db)@.media_subscriptions == old(db)@.media_subscriptions,
            final(db)@.sub_shops == old(db)@.sub_shops,
            final(db)@.sub_offers == old(db)@.sub_offers,
            final(db)@.quotas == ensured_quotas(
                old(db)@.quotas,
                user_id@,
                self.default_user_quota_mib as int,
            ),
            r@.user_id == user_id@,
            r@.max_size_mib == effective_ceiling_mib(
                old(db)@.quotas,
                user_id@,
                self.default_user_quota_mib as int,
            ),
    {
        proof {
            lemma_find_first_sound(db@.quotas, |q: MediaQuotaV| q.user_id == user_id@);
        }
        match MediaQuota::get(db, user_id) {
            Some(q) => q,
            None => {
                match MediaQuota::create(db, user_id, self.default_user_quota_mib) {
                    Ok(q) => q,
                    Err(_) => {
                        // Unreachable: the record was just found absent.
                        proof {
                            assert(false);
                        }
                        MediaQuota { user_id: user_id.clone(), max_size_mib: 0 }
                    },
                }
            },
        }
    }

    /// The advisory quota check: fails with `QuotaExceeded` exactly when
    /// the user's stored bytes exceed the user's ceiling. Materializes a
    /// default quota record on first use.
    pub fn check_quota(&self, db: &mut Db, user_id: &String) -> (r: Result<(), Error>)
        requires
            old(db).wf(),
            self.wf(),
        ensures
            final(db).wf(),
            final(db)@.medias == old(db)@.medias,
            final(db)@.media_offers == old(db)@.media_offers,
            final(db)@.media_subscriptions == old(db)@.media_subscriptions,
            final(db)@.sub_shops == old(db)@.sub_shops,
            final(db)@.sub_offers == old(db)@.sub_offers,
            final(db)@.quotas == ensured_quotas(
                old(db)@.quotas,
                user_id@,
                self.default_user_quota_mib as int,
            ),
            r is Ok <==> total_size(old(db)@.medias, user_id@) <= effective_ceiling_mib(
                old(db)@.quotas,
                user_id@,
                self.default_user_quota_mib as int,
            ) * MIB,
            r matches Err(e) ==> e == Error::QuotaExceeded,
    {
        let user_quota = self.ensure_user_quota(db, user_id);
        let total_bytes = Self::total_user_bytes(db, user_id);
        if Self::quota_reached(total_bytes, user_quota.max_size_mib) {
            Err(Error::QuotaExceeded)
        } else {
            Ok(())
        }
    }
}

} // verus!
