//! An exact model of the object store consumed by the engine: whole-object
//! put/get/delete and the multipart upload protocol (initiate, upload
//! part, complete with an ordered tag list, abort).
//!
//! The store is modeled as plain state so that the upload orchestrator's
//! guarantees — notably that a quota breach mid-upload leaves no orphaned
//! object — are stated and proved over it. Adapters that talk to a real
//! store mirror these operations.

use vstd::prelude::*;

use crate::model::{find_first, lemma_find_first_hit, lemma_find_first_none, lemma_find_first_some,
    lemma_filter_element_of, lemma_filter_pairwise};
use crate::text::{dec_digits, u64_to_dec};
use crate::Error;

verus! {

/// A durable object: storage key, bytes and content type.
#[derive(Debug)]
pub struct StoredObject {
    pub key: String,
    pub data: Vec<u8>,
    pub content_type: String,
}

/// Abstract view of a stored object.
#[verifier::ext_equal]
pub struct StoredObjectV {
    pub key: Seq<char>,
    pub data: Seq<u8>,
    pub content_type: Seq<char>,
}

impl View for StoredObject {
    type V = StoredObjectV;

    open spec fn view(&self) -> StoredObjectV {
        StoredObjectV { key: self.key@, data: self.data@, content_type: self.content_type@ }
    }
}

impl DeepView for StoredObject {
    type V = StoredObjectV;

    open spec fn deep_view(&self) -> StoredObjectV {
        self.view()
    }
}

/// A part uploaded under an open multipart upload, with the opaque tag
/// handed back to the caller.
#[derive(Debug)]
pub struct UploadedPart {
    pub part_number: u32,
    pub data: Vec<u8>,
    pub etag: String,
}

/// Abstract view of an uploaded part.
#[verifier::ext_equal]
pub struct UploadedPartV {
    pub part_number: u32,
    pub data: Seq<u8>,
    pub etag: Seq<char>,
}

impl View for UploadedPart {
    type V = UploadedPartV;

    open spec fn view(&self) -> UploadedPartV {
        UploadedPartV { part_number: self.part_number, data: self.data@, etag: self.etag@ }
    }
}

impl DeepView for UploadedPart {
    type V = UploadedPartV;

    open spec fn deep_view(&self) -> UploadedPartV {
        self.view()
    }
}

/// An open multipart upload.
#[derive(Debug)]
pub struct MultipartUpload {
    pub upload_id: u64,
    pub key: String,
    pub content_type: String,
    pub parts: Vec<UploadedPart>,
}

/// Abstract view of an open multipart upload.
#[verifier::ext_equal]
pub struct MultipartUploadV {
    pub upload_id: u64,
    pub key: Seq<char>,
    pub content_type: Seq<char>,
    pub parts: Seq<UploadedPartV>,
}

impl View for MultipartUpload {
    type V = MultipartUploadV;

    open spec fn view(&self) -> MultipartUploadV {
        MultipartUploadV {
            upload_id: self.upload_id,
            key: self.key@,
            content_type: self.content_type@,
            parts: self.parts.deep_view(),
        }
    }
}

impl DeepView for MultipartUpload {
    type V = MultipartUploadV;

    open spec fn deep_view(&self) -> MultipartUploadV {
        self.view()
    }
}

/// One part of the ordered tag list supplied when completing a multipart
/// upload.
#[derive(Debug)]
pub struct Part {
    pub part_number: u32,
    pub etag: String,
}

/// Abstract view of a supplied part reference.
#[verifier::ext_equal]
pub struct PartV {
    pub part_number: u32,
    pub etag: Seq<char>,
}

impl View for Part {
    type V = PartV;

    open spec fn view(&self) -> PartV {
        PartV { part_number: self.part_number, etag: self.etag@ }
    }
}

impl DeepView for Part {
    type V = PartV;

    open spec fn deep_view(&self) -> PartV {
        self.view()
    }
}

/// The object stored under `key`, if any.
pub open spec fn find_object(s: Seq<StoredObjectV>, key: Seq<char>) -> Option<StoredObjectV> {
    find_first(s, |o: StoredObjectV| o.key == key)
}

/// The open upload with `upload_id` under `key`, if any.
pub open spec fn find_upload(s: Seq<MultipartUploadV>, upload_id: u64, key: Seq<char>) -> Option<
    MultipartUploadV,
> {
    find_first(s, |u: MultipartUploadV| u.upload_id == upload_id && u.key == key)
}

/// The uploaded part with `part_number`, if any.
pub open spec fn find_part(s: Seq<UploadedPartV>, part_number: u32) -> Option<UploadedPartV> {
    find_first(s, |p: UploadedPartV| p.part_number == part_number)
}

/// The object table after writing `data` under `key`: the existing row is
/// replaced, or a new one appended.
pub open spec fn upserted_objects(
    pre: Seq<StoredObjectV>,
    key: Seq<char>,
    data: Seq<u8>,
    content_type: Seq<char>,
) -> Seq<StoredObjectV> {
    let new = StoredObjectV { key, data, content_type };
    if find_object(pre, key) is Some {
        pre.map_values(
            |o: StoredObjectV|
                if o.key == key {
                    new
                } else {
                    o
                },
        )
    } else {
        pre.push(new)
    }
}

/// The parts of an upload after writing `data` as `part_number`: the
/// existing part is replaced, or a new one appended.
pub open spec fn upserted_parts(
    pre: Seq<UploadedPartV>,
    part_number: u32,
    data: Seq<u8>,
    etag: Seq<char>,
) -> Seq<UploadedPartV> {
    let new = UploadedPartV { part_number, data, etag };
    if find_part(pre, part_number) is Some {
        pre.map_values(
            |p: UploadedPartV|
                if p.part_number == part_number {
                    new
                } else {
                    p
                },
        )
    } else {
        pre.push(new)
    }
}

/// The uploads after writing `data` as a part of the open upload
/// `(upload_id, key)`: that upload's parts are upserted, everything else
/// untouched.
pub open spec fn upserted_uploads(
    pre: Seq<MultipartUploadV>,
    upload_id: u64,
    key: Seq<char>,
    part_number: u32,
    data: Seq<u8>,
    etag: Seq<char>,
) -> Seq<MultipartUploadV> {
    pre.map_values(
        |u: MultipartUploadV|
            if u.upload_id == upload_id && u.key == key {
                MultipartUploadV { parts: upserted_parts(u.parts, part_number, data, etag), ..u }
            } else {
                u
            },
    )
}

/// Whether entry `k` of the supplied tag list is accepted: it resolves to
/// an uploaded part with a matching tag, and its part number exceeds the
/// previous entry's.
pub open spec fn req_entry_valid(parts: Seq<UploadedPartV>, req: Seq<PartV>, k: int) -> bool {
    &&& match find_part(parts, req[k].part_number) {
        Some(p) => p.etag == req[k].etag,
        None => false,
    }
    &&& k >= 1 ==> req[k].part_number > req[k - 1].part_number
}

/// Whether the supplied tag list is accepted against the uploaded parts:
/// part numbers strictly ascending, each resolving to an uploaded part
/// whose tag matches.
pub open spec fn parts_valid(parts: Seq<UploadedPartV>, req: Seq<PartV>) -> bool {
    forall|k: int| 0 <= k < req.len() ==> #[trigger] req_entry_valid(parts, req, k)
}

/// The bytes of the finalized object: the uploaded parts' data,
/// concatenated in the order of the supplied tag list.
pub open spec fn assembled(parts: Seq<UploadedPartV>, req: Seq<PartV>) -> Seq<u8>
    decreases req.len(),
{
    if req.len() == 0 {
        Seq::empty()
    } else {
        assembled(parts, req.drop_last()) + match find_part(parts, req.last().part_number) {
            Some(p) => p.data,
            None => Seq::<u8>::empty(),
        }
    }
}

/// The in-memory object store: durable objects and open multipart uploads.
#[derive(Debug)]
pub struct FileService {
    pub bucket_name: String,
    pub objects: Vec<StoredObject>,
    pub uploads: Vec<MultipartUpload>,
    pub next_upload_id: u64,
}

/// Abstract view of the store.
#[verifier::ext_equal]
pub struct FileServiceV {
    pub bucket_name: Seq<char>,
    pub objects: Seq<StoredObjectV>,
    pub uploads: Seq<MultipartUploadV>,
    pub next_upload_id: u64,
}

impl View for FileService {
    type V = FileServiceV;

    open spec fn view(&self) -> FileServiceV {
        FileServiceV {
            bucket_name: self.bucket_name@,
            objects: self.objects.deep_view(),
            uploads: self.uploads.deep_view(),
            next_upload_id: self.next_upload_id,
        }
    }
}

/// Object keys are unique.
pub open spec fn objects_wf(s: Seq<StoredObjectV>) -> bool {
    forall|i: int, j: int| 0 <= i < j < s.len() ==> s[i].key != s[j].key
}

/// Part numbers are unique within an upload.
pub open spec fn parts_wf(s: Seq<UploadedPartV>) -> bool {
    forall|a: int, b: int| 0 <= a < b < s.len() ==> s[a].part_number != s[b].part_number
}

/// Upload identifiers are unique and below the next fresh one; each
/// upload's parts are well-formed.
pub open spec fn uploads_wf(s: Seq<MultipartUploadV>, next_upload_id: u64) -> bool {
    &&& forall|i: int, j: int| 0 <= i < j < s.len() ==> s[i].upload_id != s[j].upload_id
    &&& forall|i: int| 0 <= i < s.len() ==> (#[trigger] s[i]).upload_id < next_upload_id
    &&& forall|i: int| 0 <= i < s.len() ==> parts_wf((#[trigger] s[i]).parts)
}

impl FileService {
    /// Object keys are unique; upload identifiers are unique and below the
    /// next fresh one; part numbers are unique within an upload.
    pub open spec fn wf(self) -> bool {
        &&& objects_wf(self@.objects)
        &&& uploads_wf(self@.uploads, self@.next_upload_id)
    }

    /// An empty store.
    pub fn new(bucket_name: String) -> (s: Self)
        ensures
            s.wf(),
            s@.bucket_name == bucket_name@,
            s@.objects =~= Seq::<StoredObjectV>::empty(),
            s@.uploads =~= Seq::<MultipartUploadV>::empty(),
    {
        FileService { bucket_name, objects: Vec::new(), uploads: Vec::new(), next_upload_id: 0 }
    }

    /// Writes a whole object under `file_path`, replacing any previous
    /// one.
    pub fn put_file(&mut self, file_path: &String, file_data: &Vec<u8>, content_type: &String) -> (r:
        Result<(), Error>)
        requires
            old(self).wf(),
        ensures
            final(self).wf(),
            r is Ok,
            final(self)@.uploads == old(self)@.uploads,
            final(self)@.next_upload_id == old(self)@.next_upload_id,
            final(self)@.bucket_name == old(self)@.bucket_name,
            final(self)@.objects == upserted_objects(
                old(self)@.objects,
                file_path@,
                file_data@,
                content_type@,
            ),
    {
        self.upsert_object(file_path, file_data, content_type);
        Ok(())
    }

    /// Reads the object stored under `file_path`.
    ///
    /// Fails with `NotFound` exactly when no object is stored there.
    pub fn get_file(&self, file_path: &String) -> (r: Result<Vec<u8>, Error>)
        ensures
            match r {
                Ok(d) => find_object(self@.objects, file_path@) matches Some(o) && d@ == o.data,
                Err(e) => e == Error::NotFound && find_object(self@.objects, file_path@) is None,
            },
    {
        let n = self.objects.len();
        for i in 0..n
            invariant
                n == self.objects.len(),
                forall|j: int| 0 <= j < i ==> self@.objects[j].key != file_path@,
        {
            proof {
                assert(self@.objects[i as int] == self.objects@[i as int]@);
            }
            if self.objects[i].key == *file_path {
                proof {
                    lemma_find_first_hit(
                        self@.objects,
                        |o: StoredObjectV| o.key == file_path@,
                        i as int,
                    );
                }
                let d = self.objects[i].data.clone();
                proof {
                    assert(d@ =~= self.objects@[i as int].data@);
                }
                return Ok(d);
            }
        }
        proof {
            lemma_find_first_none(self@.objects, |o: StoredObjectV| o.key == file_path@);
        }
        Err(Error::NotFound)
    }

    /// Deletes the object stored under `file_path`; deleting an absent
    /// object is a no-op.
    pub fn remove_file(&mut self, file_path: &String) -> (r: Result<(), Error>)
        requires
            old(self).wf(),
        ensures
            final(self).wf(),
            r is Ok,
            final(self)@.uploads == old(self)@.uploads,
            final(self)@.next_upload_id == old(self)@.next_upload_id,
            final(self)@.bucket_name == old(self)@.bucket_name,
            final(self)@.objects == old(self)@.objects.filter(
                |o: StoredObjectV| o.key != file_path@,
            ),
    {
        let mut out: Vec<StoredObject> = Vec::new();
        let n = self.objects.len();
        for i in 0..n
            invariant
                n == self.objects.len(),
                *self == *old(self),
                old(self).wf(),
                out.deep_view() == self@.objects.take(i as int).filter(
                    |o: StoredObjectV| o.key != file_path@,
                ),
        {
            proof {
                reveal(Seq::filter);
                assert(self@.objects[i as int] == self.objects@[i as int]@);
                assert(self@.objects.take(i + 1).drop_last() =~= self@.objects.take(i as int));
                assert(self@.objects.take(i + 1).last() == self@.objects[i as int]);
            }
            if !(self.objects[i].key == *file_path) {
                let ghost preout = out.deep_view();
                let o = StoredObject {
                    key: self.objects[i].key.clone(),
                    data: self.objects[i].data.clone(),
                    content_type: self.objects[i].content_type.clone(),
                };
                proof {
                    assert(o@ =~= self@.objects[i as int]);
                }
                out.push(o);
                proof {
                    assert(out.deep_view() =~= preout.push(self@.objects[i as int]));
                }
            }
        }
        proof {
            assert(self@.objects.take(n as int) =~= self@.objects);
        }
        self.objects = out;
        proof {
            let keep = |o: StoredObjectV| o.key != file_path@;
            let f = old(self)@.objects.filter(keep);
            assert forall|i: int, j: int| 0 <= i < j < f.len() implies f[i].key != f[j].key by {
                lemma_filter_pairwise(
                    old(self)@.objects,
                    keep,
                    |a: StoredObjectV, b: StoredObjectV| a.key != b.key,
                    i,
                    j,
                );
            }
        }
        Ok(())
    }

    /// Opens a multipart upload under `file_path` and returns its fresh
    /// upload identifier.
    ///
    /// Fails with `Transient` only when the identifier space is exhausted.
    pub fn initiate_multipart_upload(&mut self, file_path: &String, content_type: &String) -> (r:
        Result<u64, Error>)
        requires
            old(self).wf(),
        ensures
            final(self).wf(),
            final(self)@.objects == old(self)@.objects,
            final(self)@.bucket_name == old(self)@.bucket_name,
            match r {
                Ok(id) => {
                    &&& id == old(self)@.next_upload_id
                    &&& final(self)@.uploads == old(self)@.uploads.push(
                        MultipartUploadV {
                            upload_id: id,
                            key: file_path@,
                            content_type: content_type@,
                            parts: Seq::empty(),
                        },
                    )
                    &&& final(self)@.next_upload_id == old(self)@.next_upload_id + 1
                },
                Err(e) => {
                    &&& e == Error::Transient
                    &&& old(self)@.next_upload_id == u64::MAX
                    &&& final(self)@.uploads == old(self)@.uploads
                    &&& final(self)@.next_upload_id == old(self)@.next_upload_id
                },
            },
    {
        if self.next_upload_id == u64::MAX {
            return Err(Error::Transient);
        }
        let id = self.next_upload_id;
        let u = MultipartUpload {
            upload_id: id,
            key: file_path.clone(),
            content_type: content_type.clone(),
            parts: Vec::new(),
        };
        let ghost pre = self@.uploads;
        self.uploads.push(u);
        self.next_upload_id = id + 1;
        proof {
            assert(self@.uploads =~~= pre.push(
                MultipartUploadV {
                    upload_id: id,
                    key: file_path@,
                    content_type: content_type@,
                    parts: Seq::empty(),
                },
            ));
        }
        Ok(id)
    }

    /// Writes `file_data` as part `part_number` of the open upload and
    /// returns the part's tag.
    ///
    /// Fails with `InvalidArgument` when the part number does not fit the
    /// protocol's range, and with `Transient` when no such upload is open.
    pub fn put_multipart_chunk(
        &mut self,
        file_path: &String,
        upload_id: u64,
        part_number: u32,
        file_data: &Vec<u8>,
    ) -> (r: Result<String, Error>)
        requires
            old(self).wf(),
        ensures
            final(self).wf(),
            final(self)@.objects == old(self)@.objects,
            final(self)@.next_upload_id == old(self)@.next_upload_id,
            final(self)@.bucket_name == old(self)@.bucket_name,
            match r {
                Ok(etag) => {
                    &&& part_number <= i32::MAX as u32
                    &&& find_upload(old(self)@.uploads, upload_id, file_path@) is Some
                    &&& etag@ == dec_digits(part_number as int)
                    &&& final(self)@.uploads == upserted_uploads(
                        old(self)@.uploads,
                        upload_id,
                        file_path@,
                        part_number,
                        file_data@,
                        dec_digits(part_number as int),
                    )
                },
                Err(e) => {
                    &&& final(self)@.uploads == old(self)@.uploads
                    &&& if part_number > i32::MAX as u32 {
                        e == Error::InvalidArgument
                    } else {
                        e == Error::Transient && find_upload(
                            old(self)@.uploads,
                            upload_id,
                            file_path@,
                        ) is None
                    }
                },
            },
    {
        if part_number > i32::MAX as u32 {
            return Err(Error::InvalidArgument);
        }
        let n = self.uploads.len();
        for i in 0..n
            invariant
                n == self.uploads.len(),
                *self == *old(self),
                old(self).wf(),
                part_number <= i32::MAX as u32,
                forall|j: int|
                    0 <= j < i ==> !(self@.uploads[j].upload_id == upload_id && self@.uploads[j].key
                        == file_path@),
        {
            proof {
                assert(self@.uploads[i as int] == self.uploads@[i as int]@);
            }
            if self.uploads[i].upload_id == upload_id && self.uploads[i].key == *file_path {
                proof {
                    lemma_find_first_some(
                        self@.uploads,
                        |u: MultipartUploadV| u.upload_id == upload_id && u.key == file_path@,
                        i as int,
                    );
                }
                let etag = u64_to_dec(part_number as u64);
                let ghost pre = self@.uploads;
                let ghost preu = self@.uploads[i as int];
                let mut u = self.uploads.remove(i);
                Self::upsert_part(&mut u.parts, part_number, file_data, &etag);
                proof {
                    assert(u@ =~~= (MultipartUploadV {
                        parts: upserted_parts(
                            preu.parts,
                            part_number,
                            file_data@,
                            dec_digits(part_number as int),
                        ),
                        ..preu
                    }));
                }
                self.uploads.insert(i, u);
                proof {
                    assert forall|j: int|
                        0 <= j < pre.len() && j != i as int implies !(pre[j].upload_id == upload_id
                        && pre[j].key == file_path@) by {
                        if j > i as int {
                            assert(pre[i as int].upload_id != pre[j].upload_id);
                        }
                    }
                    assert(self@.uploads =~~= pre.update(
                        i as int,
                        MultipartUploadV {
                            parts: upserted_parts(
                                preu.parts,
                                part_number,
                                file_data@,
                                dec_digits(part_number as int),
                            ),
                            ..preu
                        },
                    ));
                    assert(self@.uploads =~~= upserted_uploads(
                        pre,
                        upload_id,
                        file_path@,
                        part_number,
                        file_data@,
                        dec_digits(part_number as int),
                    ));
                    lemma_upserted_parts_wf(
                        preu.parts,
                        part_number,
                        file_data@,
                        dec_digits(part_number as int),
                    );
                }
                return Ok(etag);
            }
        }
        proof {
            lemma_find_first_none(
                self@.uploads,
                |u: MultipartUploadV| u.upload_id == upload_id && u.key == file_path@,
            );
        }
        Err(Error::Transient)
    }

    /// Finalizes the open upload into a durable object assembled from the
    /// supplied ordered tag list, and closes the upload.
    ///
    /// Fails with `Transient` exactly when no such upload is open or the
    /// tag list is not accepted against the uploaded parts.
    #[verifier::rlimit(80)]
    pub fn complete_multipart_upload(
        &mut self,
        file_path: &String,
        upload_id: u64,
        parts: &Vec<Part>,
    ) -> (r: Result<(), Error>)
        requires
            old(self).wf(),
        ensures
            final(self).wf(),
            final(self)@.next_upload_id == old(self)@.next_upload_id,
            final(self)@.bucket_name == old(self)@.bucket_name,
            match r {
                Ok(()) => {
                    &&& find_upload(old(self)@.uploads, upload_id, file_path@) matches Some(u)
                        && parts_valid(u.parts, parts.deep_view()) && final(self)@.objects
                        == upserted_objects(
                        old(self)@.objects,
                        file_path@,
                        assembled(u.parts, parts.deep_view()),
                        u.content_type,
                    )
                    &&& final(self)@.uploads == old(self)@.uploads.filter(
                        |u: MultipartUploadV| u.upload_id != upload_id,
                    )
                },
                Err(e) => {
                    &&& e == Error::Transient
                    &&& final(self)@.objects == old(self)@.objects
                    &&& final(self)@.uploads == old(self)@.uploads
                    &&& match find_upload(old(self)@.uploads, upload_id, file_path@) {
                        Some(u) => !parts_valid(u.parts, parts.deep_view()),
                        None => true,
                    }
                },
            },
    {
        let n = self.uploads.len();
        let mut found: Option<usize> = None;
        for i in 0..n
            invariant
                n == self.uploads.len(),
                *self == *old(self),
                old(self).wf(),
                match found {
                    Some(fi) => fi < i && self@.uploads[fi as int].upload_id == upload_id
                        && self@.uploads[fi as int].key == file_path@ && find_upload(
                        self@.uploads,
                        upload_id,
                        file_path@,
                    ) == Some(self@.uploads[fi as int]),
                    None => forall|j: int|
                        0 <= j < i ==> !(self@.uploads[j].upload_id == upload_id
                            && self@.uploads[j].key == file_path@),
                },
        {
            proof {
                assert(self@.uploads[i as int] == self.uploads@[i as int]@);
            }
            if found.is_none() && self.uploads[i].upload_id == upload_id && self.uploads[i].key
                == *file_path {
                proof {
                    lemma_find_first_hit(
                        self@.uploads,
                        |u: MultipartUploadV| u.upload_id == upload_id && u.key == file_path@,
                        i as int,
                    );
                }
                found = Some(i);
            }
        }
        let ui = match found {
            Some(fi) => fi,
            None => {
                proof {
                    lemma_find_first_none(
                        self@.uploads,
                        |u: MultipartUploadV| u.upload_id == upload_id && u.key == file_path@,
                    );
                }
                return Err(Error::Transient);
            },
        };
        let data = match Self::validate_and_assemble(&self.uploads[ui].parts, parts) {
            Some(d) => d,
            None => {
                proof {
                    assert(self.uploads@[ui as int]@ == self@.uploads[ui as int]);
                }
                return Err(Error::Transient);
            },
        };
        proof {
            assert(self.uploads@[ui as int]@ == self@.uploads[ui as int]);
        }
        // Write the durable object and close the upload.
        let ct = self.uploads[ui].content_type.clone();
        self.upsert_object(file_path, &data, &ct);
        self.remove_upload(upload_id);
        Ok(())
    }

    /// Checks the supplied tag list against the uploaded parts and, when
    /// accepted, assembles the object's bytes in the supplied order.
    #[verifier::rlimit(80)]
    fn validate_and_assemble(uploaded: &Vec<UploadedPart>, req: &Vec<Part>) -> (r: Option<Vec<u8>>)
        ensures
            match r {
                Some(d) => parts_valid(uploaded.deep_view(), req.deep_view()) && d@ == assembled(
                    uploaded.deep_view(),
                    req.deep_view(),
                ),
                None => !parts_valid(uploaded.deep_view(), req.deep_view()),
            },
    {
        let mut acc: Vec<u8> = Vec::new();
        let m = req.len();
        for k in 0..m
            invariant
                m == req.len(),
                forall|x: int| 0 <= x < k ==> #[trigger] req_entry_valid(
                    uploaded.deep_view(),
                    req.deep_view(),
                    x,
                ),
                acc@ == assembled(uploaded.deep_view(), req.deep_view().take(k as int)),
        {
            proof {
                assert(req.deep_view()[k as int] == req@[k as int]@);
                assert(req.deep_view().take(k + 1).drop_last() =~= req.deep_view().take(k as int));
                assert(req.deep_view().take(k + 1).last() == req.deep_view()[k as int]);
            }
            if k > 0 {
                proof {
                    assert(req.deep_view()[k - 1] == req@[k - 1]@);
                }
                if req[k - 1].part_number >= req[k].part_number {
                    proof {
                        assert(!req_entry_valid(uploaded.deep_view(), req.deep_view(), k as int));
                    }
                    return None;
                }
            }
            let pi = match Self::find_part_index(uploaded, req[k].part_number) {
                Some(pi) => pi,
                None => {
                    proof {
                        assert(!req_entry_valid(uploaded.deep_view(), req.deep_view(), k as int));
                    }
                    return None;
                },
            };
            proof {
                assert(uploaded.deep_view()[pi as int] == uploaded@[pi as int]@);
            }
            if !(uploaded[pi].etag == req[k].etag) {
                proof {
                    assert(!req_entry_valid(uploaded.deep_view(), req.deep_view(), k as int));
                }
                return None;
            }
            proof {
                assert(req_entry_valid(uploaded.deep_view(), req.deep_view(), k as int));
            }
            let ghost preacc = acc@;
            let mut chunk = uploaded[pi].data.clone();
            proof {
                assert(chunk@ =~= uploaded.deep_view()[pi as int].data);
            }
            acc.append(&mut chunk);
            proof {
                assert(acc@ =~= preacc + uploaded.deep_view()[pi as int].data);
            }
        }
        proof {
            assert(req.deep_view().take(m as int) =~= req.deep_view());
        }
                Some(acc)
    }

    /// Abandons the open upload, discarding its parts.
    ///
    /// Fails with `Transient` exactly when no such upload is open; no
    /// durable object is touched either way.
    pub fn abort_multipart_upload(&mut self, file_path: &String, upload_id: u64) -> (r: Result<
        (),
        Error,
    >)
        requires
            old(self).wf(),
        ensures
            final(self).wf(),
            final(self)@.objects == old(self)@.objects,
            final(self)@.next_upload_id == old(self)@.next_upload_id,
            final(self)@.bucket_name == old(self)@.bucket_name,
            match r {
                Ok(()) => {
                    &&& find_upload(old(self)@.uploads, upload_id, file_path@) is Some
                    &&& final(self)@.uploads == old(self)@.uploads.filter(
                        |u: MultipartUploadV| u.upload_id != upload_id,
                    )
                },
                Err(e) => {
                    &&& e == Error::Transient
                    &&& find_upload(old(self)@.uploads, upload_id, file_path@) is None
                    &&& final(self)@.uploads == old(self)@.uploads
                },
            },
    {
        let n = self.uploads.len();
        let mut present = false;
        for i in 0..n
            invariant
                n == self.uploads.len(),
                *self == *old(self),
                old(self).wf(),
                present ==> find_upload(self@.uploads, upload_id, file_path@) is Some,
                !present ==> forall|j: int|
                    0 <= j < i ==> !(self@.uploads[j].upload_id == upload_id && self@.uploads[j].key
                        == file_path@),
        {
            proof {
                assert(self@.uploads[i as int] == self.uploads@[i as int]@);
            }
            if !present && self.uploads[i].upload_id == upload_id && self.uploads[i].key
                == *file_path {
                proof {
                    lemma_find_first_some(
                        self@.uploads,
                        |u: MultipartUploadV| u.upload_id == upload_id && u.key == file_path@,
                        i as int,
                    );
                }
                present = true;
            }
        }
        if !present {
            proof {
                lemma_find_first_none(
                    self@.uploads,
                    |u: MultipartUploadV| u.upload_id == upload_id && u.key == file_path@,
                );
            }
            return Err(Error::Transient);
        }
        self.remove_upload(upload_id);
        Ok(())
    }

    /// Writes `data` under `key`, replacing any previous object.
    fn upsert_object(&mut self, key: &String, data: &Vec<u8>, content_type: &String)
        requires
            old(self).wf(),
        ensures
            final(self).wf(),
            final(self)@.uploads == old(self)@.uploads,
            final(self)@.next_upload_id == old(self)@.next_upload_id,
            final(self)@.bucket_name == old(self)@.bucket_name,
            final(self)@.objects == upserted_objects(
                old(self)@.objects,
                key@,
                data@,
                content_type@,
            ),
    {
        let n = self.objects.len();
        for i in 0..n
            invariant
                n == self.objects.len(),
                *self == *old(self),
                old(self).wf(),
                forall|j: int| 0 <= j < i ==> self@.objects[j].key != key@,
        {
            proof {
                assert(self@.objects[i as int] == self.objects@[i as int]@);
            }
            if self.objects[i].key == *key {
                proof {
                    lemma_find_first_hit(self@.objects, |o: StoredObjectV| o.key == key@, i as int);
                }
                let ghost pre = self@.objects;
                let mut o = self.objects.remove(i);
                o.data = data.clone();
                o.content_type = content_type.clone();
                self.objects.insert(i, o);
                proof {
                    let newv = StoredObjectV { key: key@, data: data@, content_type: content_type@ };
                    assert(pre[i as int].key == key@);
                    assert forall|j: int| 0 <= j < pre.len() && j != i as int implies pre[j].key
                        != key@ by {
                        if j < i as int {
                            assert(pre[j].key != key@);
                        } else {
                            assert(pre[i as int].key != pre[j].key);
                        }
                    }
                    assert(self@.objects =~~= pre.map_values(
                        |o: StoredObjectV|
                            if o.key == key@ {
                                newv
                            } else {
                                o
                            },
                    ));
                }
                return ;
            }
        }
        proof {
            lemma_find_first_none(self@.objects, |o: StoredObjectV| o.key == key@);
        }
        let ghost pre = self@.objects;
        let o = StoredObject {
            key: key.clone(),
            data: data.clone(),
            content_type: content_type.clone(),
        };
        let ghost ov = o@;
        self.objects.push(o);
        proof {
            assert(ov =~= (StoredObjectV { key: key@, data: data@, content_type: content_type@ }));
            assert(self@.objects =~= pre.push(
                StoredObjectV { key: key@, data: data@, content_type: content_type@ },
            ));
        }
    }

    /// Removes the upload with `upload_id`.
    fn remove_upload(&mut self, upload_id: u64)
        requires
            old(self).wf(),
        ensures
            final(self).wf(),
            final(self)@.objects == old(self)@.objects,
            final(self)@.next_upload_id == old(self)@.next_upload_id,
            final(self)@.bucket_name == old(self)@.bucket_name,
            final(self)@.uploads == old(self)@.uploads.filter(
                |u: MultipartUploadV| u.upload_id != upload_id,
            ),
    {
        let mut out: Vec<MultipartUpload> = Vec::new();
        let n = self.uploads.len();
        for i in 0..n
            invariant
                n == self.uploads.len(),
                *self == *old(self),
                old(self).wf(),
                out.deep_view() == self@.uploads.take(i as int).filter(
                    |u: MultipartUploadV| u.upload_id != upload_id,
                ),
        {
            proof {
                reveal(Seq::filter);
                assert(self@.uploads[i as int] == self.uploads@[i as int]@);
                assert(self@.uploads.take(i + 1).drop_last() =~= self@.uploads.take(i as int));
                assert(self@.uploads.take(i + 1).last() == self@.uploads[i as int]);
            }
            if !(self.uploads[i].upload_id == upload_id) {
                let ghost preout = out.deep_view();
                let u = self.uploads[i].duplicate();
                proof {
                    assert(u@ == self@.uploads[i as int]);
                }
                out.push(u);
                proof {
                    assert(out.deep_view() =~= preout.push(self@.uploads[i as int]));
                }
            }
        }
        proof {
            assert(self@.uploads.take(n as int) =~= self@.uploads);
        }
        self.uploads = out;
        proof {
            let keep = |u: MultipartUploadV| u.upload_id != upload_id;
            let f = old(self)@.uploads.filter(keep);
            assert forall|i: int, j: int|
                0 <= i < j < f.len() implies f[i].upload_id != f[j].upload_id by {
                lemma_filter_pairwise(
                    old(self)@.uploads,
                    keep,
                    |a: MultipartUploadV, b: MultipartUploadV| a.upload_id != b.upload_id,
                    i,
                    j,
                );
            }
            assert forall|i: int|
                0 <= i < f.len() implies (#[trigger] f[i]).upload_id < self@.next_upload_id by {
                lemma_filter_element_of(old(self)@.uploads, keep, i);
            }
            assert forall|i: int, a: int, b: int|
                0 <= i < f.len() && 0 <= a < b < f[i].parts.len() implies #[trigger] f[i].parts[a].part_number
                != #[trigger] f[i].parts[b].part_number by {
                lemma_filter_element_of(old(self)@.uploads, keep, i);
            }
        }
    }

    /// Writes `data` as `part_number` with the given tag, replacing any
    /// previous part with that number.
    fn upsert_part(parts: &mut Vec<UploadedPart>, part_number: u32, data: &Vec<u8>, etag: &String)
        requires
            forall|a: int, b: int|
                0 <= a < b < old(parts).deep_view().len() ==> old(parts).deep_view()[a].part_number
                    != old(parts).deep_view()[b].part_number,
        ensures
            final(parts).deep_view() == upserted_parts(
                old(parts).deep_view(),
                part_number,
                data@,
                etag@,
            ),
    {
        let ghost pre = parts.deep_view();
        let n = parts.len();
        for i in 0..n
            invariant
                n == parts.len(),
                *parts == *old(parts),
                forall|a: int, b: int|
                    0 <= a < b < pre.len() ==> pre[a].part_number != pre[b].part_number,
                pre == parts.deep_view(),
                forall|j: int| 0 <= j < i ==> pre[j].part_number != part_number,
        {
            proof {
                assert(parts.deep_view()[i as int] == parts@[i as int]@);
            }
            if parts[i].part_number == part_number {
                proof {
                    lemma_find_first_hit(
                        pre,
                        |p: UploadedPartV| p.part_number == part_number,
                        i as int,
                    );
                }
                let mut p = parts.remove(i);
                p.data = data.clone();
                p.etag = etag.clone();
                parts.insert(i, p);
                proof {
                    let newv = UploadedPartV { part_number, data: data@, etag: etag@ };
                    assert(pre[i as int].part_number == part_number);
                    assert forall|j: int| 0 <= j < pre.len() && j != i as int implies pre[j].part_number
                        != part_number by {
                        if j < i as int {
                            assert(pre[j].part_number != part_number);
                        } else {
                            assert(pre[i as int].part_number != pre[j].part_number);
                        }
                    }
                    assert(parts.deep_view() =~~= pre.map_values(
                        |p: UploadedPartV|
                            if p.part_number == part_number {
                                newv
                            } else {
                                p
                            },
                    ));
                }
                return ;
            }
        }
        proof {
            lemma_find_first_none(pre, |p: UploadedPartV| p.part_number == part_number);
        }
        let p = UploadedPart { part_number, data: data.clone(), etag: etag.clone() };
        let ghost pv = p@;
        parts.push(p);
        proof {
            assert(pv =~= (UploadedPartV { part_number, data: data@, etag: etag@ }));
            assert(parts.deep_view() =~= pre.push(
                UploadedPartV { part_number, data: data@, etag: etag@ },
            ));
        }
    }

    /// The position of the part with `part_number` among the uploaded
    /// parts.
    fn find_part_index(parts: &Vec<UploadedPart>, part_number: u32) -> (r: Option<usize>)
        ensures
            match r {
                Some(i) => i < parts.len() && find_part(parts.deep_view(), part_number) == Some(
                    parts.deep_view()[i as int],
                ) && parts.deep_view()[i as int].part_number == part_number,
                None => find_part(parts.deep_view(), part_number) is None,
            },
    {
        let n = parts.len();
        for i in 0..n
            invariant
                n == parts.len(),
                forall|j: int| 0 <= j < i ==> parts.deep_view()[j].part_number != part_number,
        {
            proof {
                assert(parts.deep_view()[i as int] == parts@[i as int]@);
            }
            if parts[i].part_number == part_number {
                proof {
                    lemma_find_first_hit(
                        parts.deep_view(),
                        |p: UploadedPartV| p.part_number == part_number,
                        i as int,
                    );
                }
                return Some(i);
            }
        }
        proof {
            lemma_find_first_none(parts.deep_view(), |p: UploadedPartV| p.part_number == part_number);
        }
        None
    }
}

impl MultipartUpload {
    /// A copy that preserves the view.
    fn duplicate(&self) -> (r: Self)
        ensures
            r@ == self@,
    {
        let mut parts: Vec<UploadedPart> = Vec::new();
        let n = self.parts.len();
        for i in 0..n
            invariant
                n == self.parts.len(),
                parts.deep_view() == self.parts.deep_view().take(i as int),
        {
            proof {
                assert(self.parts.deep_view()[i as int] == self.parts@[i as int]@);
            }
            let ghost prev = parts.deep_view();
            parts.push(
                UploadedPart {
                    part_number: self.parts[i].part_number,
                    data: self.parts[i].data.clone(),
                    etag: self.parts[i].etag.clone(),
                },
            );
            proof {
                assert(parts.deep_view() =~= prev.push(self.parts.deep_view()[i as int]));
            }
        }
        proof {
            assert(self.parts.deep_view().take(n as int) =~= self.parts.deep_view());
        }
        let r = MultipartUpload {
            upload_id: self.upload_id,
            key: self.key.clone(),
            content_type: self.content_type.clone(),
            parts,
        };
        proof {
            assert(r@ =~= self@) by {
                assert(r@.parts =~= self@.parts);
            }
        }
        r
    }
}

/// Upserting a part keeps part numbers unique.
proof fn lemma_upserted_parts_wf(pre: Seq<UploadedPartV>, part_number: u32, data: Seq<u8>, etag: Seq<
    char,
>)
    requires
        forall|a: int, b: int| 0 <= a < b < pre.len() ==> pre[a].part_number != pre[b].part_number,
    ensures
        forall|a: int, b: int|
            0 <= a < b < upserted_parts(pre, part_number, data, etag).len() ==> upserted_parts(
                pre,
                part_number,
                data,
                etag,
            )[a].part_number != upserted_parts(pre, part_number, data, etag)[b].part_number,
{
    let post = upserted_parts(pre, part_number, data, etag);
    if find_part(pre, part_number) is Some {
        assert forall|a: int, b: int|
            0 <= a < b < post.len() implies post[a].part_number != post[b].part_number by {
            assert(pre[a].part_number != pre[b].part_number);
        }
    } else {
        crate::model::lemma_find_first_none_converse(
            pre,
            |p: UploadedPartV| p.part_number == part_number,
        );
        assert forall|a: int, b: int|
            0 <= a < b < post.len() implies post[a].part_number != post[b].part_number by {
            if b == pre.len() {
                assert(!(pre[a].part_number == part_number));
            }
        }
    }
}

} // verus!
