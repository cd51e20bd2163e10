//! The artifact store: blob storage addressed by string keys, with
//! whole-object put/get/delete and a resumable multipart upload protocol
//! (create, upload parts, complete or abort).
//!
//! An aborted or never-completed session leaves no object behind; only
//! `complete_upload` (or `put`) makes bytes retrievable at a key.

use vstd::prelude::*;
use vstd::pervasive::VecAdditionalExecFns;
use vstd::string::StrSliceExecFns;
use vstd::string::StringExecFns;

use crate::models::MultipartPartResponse;
use crate::strutil::{dec_digits, str_eq, u64_to_dec};

verus! {

/// One stored blob.
pub struct StoredObject {
    pub key: String,
    pub data: Vec<u8>,
    pub etag: String,
}

/// One part of an in-flight multipart session, as the store recorded it.
pub struct UploadedPart {
    pub part_number: u16,
    pub etag: String,
    pub data: Vec<u8>,
}

/// An in-flight multipart session: created, fed parts, and finally
/// completed into an object or aborted. `tag` is the counter value the
/// session's id was minted from.
pub struct UploadSession {
    pub upload_id: String,
    pub tag: u64,
    pub key: String,
    pub parts: Vec<UploadedPart>,
}

/// Blob storage plus the in-flight multipart sessions. `next_tag` feeds
/// the mint for upload ids and etags, so freshly issued ids never collide
/// with live ones.
pub struct ArtifactStore {
    pub objects: Vec<StoredObject>,
    pub sessions: Vec<UploadSession>,
    pub next_tag: u64,
}

/// The id minted for a session created at counter value `tag`.
pub open spec fn upload_id_of(tag: u64) -> Seq<char> {
    seq!['u'] + dec_digits(tag as int)
}

/// The tag minted for a part or object written at counter value `tag`.
pub open spec fn etag_of(tag: u64) -> Seq<char> {
    seq!['e'] + dec_digits(tag as int)
}

pub open spec fn has_object(objs: Seq<StoredObject>, key: Seq<char>) -> bool {
    exists|i: int| 0 <= i < objs.len() && objs[i].key@ == key
}

pub open spec fn object_index(objs: Seq<StoredObject>, key: Seq<char>) -> int {
    choose|i: int| 0 <= i < objs.len() && objs[i].key@ == key
}

pub open spec fn object_data(objs: Seq<StoredObject>, key: Seq<char>) -> Seq<u8> {
    objs[object_index(objs, key)].data@
}

pub open spec fn has_session(ss: Seq<UploadSession>, key: Seq<char>, id: Seq<char>) -> bool {
    exists|i: int| 0 <= i < ss.len() && ss[i].key@ == key && ss[i].upload_id@ == id
}

pub open spec fn session_index(ss: Seq<UploadSession>, key: Seq<char>, id: Seq<char>) -> int {
    choose|i: int| 0 <= i < ss.len() && ss[i].key@ == key && ss[i].upload_id@ == id
}

pub open spec fn has_part(ps: Seq<UploadedPart>, n: u16) -> bool {
    exists|i: int| 0 <= i < ps.len() && ps[i].part_number == n
}

pub open spec fn part_index(ps: Seq<UploadedPart>, n: u16) -> int {
    choose|i: int| 0 <= i < ps.len() && ps[i].part_number == n
}

pub open spec fn part_data(ps: Seq<UploadedPart>, n: u16) -> Seq<u8> {
    ps[part_index(ps, n)].data@
}

pub open spec fn part_etag(ps: Seq<UploadedPart>, n: u16) -> Seq<char> {
    ps[part_index(ps, n)].etag@
}

/// The recorded parts of the session holding `key` under `id`.
pub open spec fn session_parts(s: ArtifactStore, key: Seq<char>, id: Seq<char>) -> Seq<
    UploadedPart,
> {
    s.sessions@[session_index(s.sessions@, key, id)].parts@
}

/// The bytes an object assembled from parts `1..=n` holds: the parts'
/// data in part-number order.
pub open spec fn assembled_data(ps: Seq<UploadedPart>, n: int) -> Seq<u8>
    decreases n,
{
    if n <= 0 {
        Seq::empty()
    } else {
        assembled_data(ps, n - 1) + part_data(ps, n as u16)
    }
}

/// `complete_upload` accepts a submitted part list exactly when it names
/// the uploaded parts completely, in increasing 1-based contiguous order,
/// with the tags the store issued.
pub open spec fn parts_complete_ok(stored: Seq<UploadedPart>, submitted: Seq<MultipartPartResponse>) -> bool {
    &&& submitted.len() == stored.len()
    &&& forall|i: int|
        0 <= i < submitted.len() ==> (#[trigger] submitted[i]).part_number as int == i + 1
    &&& forall|i: int|
        0 <= i < submitted.len() ==> has_part(stored, (#[trigger] submitted[i]).part_number)
            && part_etag(stored, submitted[i].part_number) == submitted[i].etag@
}

/// How `upload_part` changes the store: the matched session gains (or
/// replaces) the numbered part, every other session, every object and all
/// other parts stay as they were, and one tag is consumed.
pub open spec fn upload_part_post(
    pre: ArtifactStore,
    post: ArtifactStore,
    key: Seq<char>,
    id: Seq<char>,
    part_number: u16,
    data: Seq<u8>,
) -> bool {
    let i = session_index(pre.sessions@, key, id);
    let ps = post.sessions@[i].parts@;
    &&& post.objects@ == pre.objects@
    &&& post.next_tag == pre.next_tag + 1
    &&& post.sessions@.len() == pre.sessions@.len()
    &&& forall|j: int|
        0 <= j < pre.sessions@.len() && j != i ==> post.sessions@[j] == pre.sessions@[j]
    &&& post.sessions@[i].key@ == key
    &&& post.sessions@[i].upload_id@ == id
    &&& post.sessions@[i].tag == pre.sessions@[i].tag
    &&& has_part(ps, part_number)
    &&& part_data(ps, part_number) == data
    &&& part_etag(ps, part_number) == etag_of(pre.next_tag)
    &&& ps.len() == if has_part(pre.sessions@[i].parts@, part_number) {
        pre.sessions@[i].parts@.len() as int
    } else {
        pre.sessions@[i].parts@.len() as int + 1
    }
    &&& forall|m: u16|
        m != part_number ==> (#[trigger] has_part(ps, m) <==> has_part(
            pre.sessions@[i].parts@,
            m,
        ))
    &&& forall|m: u16|
        m != part_number && has_part(pre.sessions@[i].parts@, m) ==> {
            &&& #[trigger] part_data(ps, m) == part_data(pre.sessions@[i].parts@, m)
            &&& part_etag(ps, m) == part_etag(pre.sessions@[i].parts@, m)
        }
}

/// Packages the facts established inside `upload_part` into
/// `upload_part_post`, away from the large proof context there.
proof fn lemma_upload_part_post_intro(
    pre: ArtifactStore,
    post: ArtifactStore,
    key: Seq<char>,
    id: Seq<char>,
    part_number: u16,
    data: Seq<u8>,
    si: int,
)
    requires
        pre.wf(),
        0 <= si < pre.sessions@.len(),
        pre.sessions@[si].key@ == key,
        pre.sessions@[si].upload_id@ == id,
        post.objects@ == pre.objects@,
        post.next_tag == pre.next_tag + 1,
        post.sessions@.len() == pre.sessions@.len(),
        forall|j: int|
            0 <= j < pre.sessions@.len() && j != si ==> post.sessions@[j] == pre.sessions@[j],
        post.sessions@[si].key@ == key,
        post.sessions@[si].upload_id@ == id,
        post.sessions@[si].tag == pre.sessions@[si].tag,
        has_part(post.sessions@[si].parts@, part_number),
        part_data(post.sessions@[si].parts@, part_number) == data,
        part_etag(post.sessions@[si].parts@, part_number) == etag_of(pre.next_tag),
        post.sessions@[si].parts@.len() == if has_part(pre.sessions@[si].parts@, part_number) {
            pre.sessions@[si].parts@.len() as int
        } else {
            pre.sessions@[si].parts@.len() as int + 1
        },
        forall|m: u16|
            m != part_number ==> (#[trigger] has_part(post.sessions@[si].parts@, m) <==> has_part(
                pre.sessions@[si].parts@,
                m,
            )),
        forall|m: u16|
            m != part_number && has_part(pre.sessions@[si].parts@, m) ==> {
                &&& #[trigger] part_data(post.sessions@[si].parts@, m) == part_data(
                    pre.sessions@[si].parts@,
                    m,
                )
                &&& part_etag(post.sessions@[si].parts@, m) == part_etag(
                    pre.sessions@[si].parts@,
                    m,
                )
            },
    ensures
        upload_part_post(pre, post, key, id, part_number, data),
{
    lemma_session_index(pre, key, id, si);
    assert(session_index(pre.sessions@, key, id) == si);
    let ps = post.sessions@[si].parts@;
    assert forall|m: u16| m != part_number implies (#[trigger] has_part(ps, m) <==> has_part(
        pre.sessions@[si].parts@,
        m,
    )) by {}
    assert forall|m: u16| m != part_number && has_part(pre.sessions@[si].parts@, m) implies {
        &&& #[trigger] part_data(ps, m) == part_data(pre.sessions@[si].parts@, m)
        &&& part_etag(ps, m) == part_etag(pre.sessions@[si].parts@, m)
    } by {}
    assert(ps.len() == if has_part(pre.sessions@[si].parts@, part_number) {
        pre.sessions@[si].parts@.len() as int
    } else {
        pre.sessions@[si].parts@.len() as int + 1
    });
    assert(upload_part_post(pre, post, key, id, part_number, data));
}

/// Every key other than `except` maps to the same data before and after.
pub open spec fn preserves_other_objects(
    o: Seq<StoredObject>,
    f: Seq<StoredObject>,
    except: Seq<char>,
) -> bool {
    &&& forall|k: Seq<char>| k != except ==> (#[trigger] has_object(f, k) <==> has_object(o, k))
    &&& forall|k: Seq<char>|
        k != except && has_object(o, k) ==> #[trigger] object_data(f, k) == object_data(o, k)
}

impl ArtifactStore {
    pub open spec fn objects_wf(&self) -> bool {
        forall|i: int, j: int|
            0 <= i < j < self.objects@.len() ==> (#[trigger] self.objects@[i]).key@ != (
            #[trigger] self.objects@[j]).key@
    }

    pub open spec fn sessions_wf(&self) -> bool {
        &&& forall|i: int|
            0 <= i < self.sessions@.len() ==> (#[trigger] self.sessions@[i]).tag < self.next_tag
                && self.sessions@[i].upload_id@ == upload_id_of(self.sessions@[i].tag)
        &&& forall|i: int, j: int|
            0 <= i < j < self.sessions@.len() ==> (#[trigger] self.sessions@[i]).tag != (
            #[trigger] self.sessions@[j]).tag
        &&& forall|i: int, m: int, n: int|
            #![trigger self.sessions@[i].parts@[m], self.sessions@[i].parts@[n]]
            0 <= i < self.sessions@.len() && 0 <= m < n < self.sessions@[i].parts@.len()
                ==> self.sessions@[i].parts@[m].part_number != self.sessions@[i].parts@[n].part_number
    }

    pub open spec fn wf(&self) -> bool {
        self.objects_wf() && self.sessions_wf()
    }

    pub fn new() -> (r: ArtifactStore)
        ensures
            r.wf(),
            r.objects@.len() == 0,
            r.sessions@.len() == 0,
            r.next_tag == 0,
    {
        ArtifactStore { objects: Vec::new(), sessions: Vec::new(), next_tag: 0 }
    }
}

/// Any index holding `key` is the index `object_index` names.
pub proof fn lemma_object_index(objs: Seq<StoredObject>, key: Seq<char>, i: int)
    requires
        forall|m: int, n: int|
            0 <= m < n < objs.len() ==> (#[trigger] objs[m]).key@ != (#[trigger] objs[n]).key@,
        0 <= i < objs.len(),
        objs[i].key@ == key,
    ensures
        has_object(objs, key),
        object_index(objs, key) == i,
        object_data(objs, key) == objs[i].data@,
{
    assert(has_object(objs, key));
    let j = object_index(objs, key);
    if i != j {
        if i < j {
            assert(objs[i].key@ != objs[j].key@);
        } else {
            assert(objs[j].key@ != objs[i].key@);
        }
        assert(false);
    }
}

/// Any index holding a session with this key and id is the index
/// `session_index` names.
pub proof fn lemma_session_index(s: ArtifactStore, key: Seq<char>, id: Seq<char>, i: int)
    requires
        s.wf(),
        0 <= i < s.sessions@.len(),
        s.sessions@[i].key@ == key,
        s.sessions@[i].upload_id@ == id,
    ensures
        has_session(s.sessions@, key, id),
        session_index(s.sessions@, key, id) == i,
{
    assert(has_session(s.sessions@, key, id));
    let j = session_index(s.sessions@, key, id);
    if i != j {
        let ti = s.sessions@[i].tag;
        let tj = s.sessions@[j].tag;
        assert(s.sessions@[i].upload_id@ == s.sessions@[j].upload_id@);
        assert(upload_id_of(ti) == upload_id_of(tj));
        assert(dec_digits(ti as int) =~= upload_id_of(ti).skip(1));
        assert(dec_digits(tj as int) =~= upload_id_of(tj).skip(1));
        crate::strutil::lemma_dec_digits_injective(ti as int, tj as int);
        if i < j {
            assert(s.sessions@[i].tag != s.sessions@[j].tag);
        } else {
            assert(s.sessions@[j].tag != s.sessions@[i].tag);
        }
        assert(false);
    }
}

/// Any index holding part number `n` is the index `part_index` names.
pub proof fn lemma_part_index(ps: Seq<UploadedPart>, n: u16, i: int)
    requires
        forall|m: int, k: int|
            0 <= m < k < ps.len() ==> (#[trigger] ps[m]).part_number != (
            #[trigger] ps[k]).part_number,
        0 <= i < ps.len(),
        ps[i].part_number == n,
    ensures
        has_part(ps, n),
        part_index(ps, n) == i,
        part_data(ps, n) == ps[i].data@,
        part_etag(ps, n) == ps[i].etag@,
{
    assert(has_part(ps, n));
    let j = part_index(ps, n);
    if i != j {
        if i < j {
            assert(ps[i].part_number != ps[j].part_number);
        } else {
            assert(ps[j].part_number != ps[i].part_number);
        }
        assert(false);
    }
}

impl ArtifactStore {
    fn find_object(&self, key: &str) -> (r: Option<usize>)
        requires
            self.wf(),
        ensures
            match r {
                Some(i) => i < self.objects@.len() && self.objects@[i as int].key@ == key@
                    && object_index(self.objects@, key@) == i && has_object(self.objects@, key@),
                None => !has_object(self.objects@, key@),
            },
    {
        let n = self.objects.len();
        let mut i: usize = 0;
        while i < n
            invariant
                self.wf(),
                0 <= i <= n,
                n == self.objects@.len(),
                forall|j: int| 0 <= j < i ==> (#[trigger] self.objects@[j]).key@ != key@,
            decreases n - i,
        {
            if str_eq(self.objects[i].key.as_str(), key) {
                proof {
                    lemma_object_index(self.objects@, key@, i as int);
                }
                return Some(i);
            }
            i = i + 1;
        }
        None
    }

    fn find_session(&self, key: &str, upload_id: &str) -> (r: Option<usize>)
        requires
            self.wf(),
        ensures
            match r {
                Some(i) => i < self.sessions@.len() && self.sessions@[i as int].key@ == key@
                    && self.sessions@[i as int].upload_id@ == upload_id@
                    && session_index(self.sessions@, key@, upload_id@) == i
                    && has_session(self.sessions@, key@, upload_id@),
                None => !has_session(self.sessions@, key@, upload_id@),
            },
    {
        let n = self.sessions.len();
        let mut i: usize = 0;
        while i < n
            invariant
                self.wf(),
                0 <= i <= n,
                n == self.sessions@.len(),
                forall|j: int|
                    0 <= j < i ==> !((#[trigger] self.sessions@[j]).key@ == key@
                        && self.sessions@[j].upload_id@ == upload_id@),
            decreases n - i,
        {
            if str_eq(self.sessions[i].key.as_str(), key) && str_eq(
                self.sessions[i].upload_id.as_str(),
                upload_id,
            ) {
                proof {
                    lemma_session_index(*self, key@, upload_id@, i as int);
                }
                return Some(i);
            }
            i = i + 1;
        }
        None
    }

    /// Whole-object write: stores `data` at `key`, replacing any existing
    /// object, and returns the freshly issued object tag.
    pub fn put(&mut self, key: &str, data: Vec<u8>) -> (etag: String)
        requires
            old(self).wf(),
            old(self).next_tag < u64::MAX,
        ensures
            final(self).wf(),
            etag@ == etag_of(old(self).next_tag),
            has_object(final(self).objects@, key@),
            object_data(final(self).objects@, key@) == data@,
            preserves_other_objects(old(self).objects@, final(self).objects@, key@),
            final(self).sessions@ == old(self).sessions@,
            final(self).next_tag == old(self).next_tag + 1,
    {
        let etag = make_etag(self.next_tag);
        let obj = StoredObject {
            key: String::from_str(key),
            data,
            etag: etag.clone(),
        };
        let ghost old_objs = self.objects@;
        match self.find_object(key) {
            Some(i) => {
                self.objects.set(i, obj);
                proof {
                    assert(self.objects@ == old_objs.update(i as int, self.objects@[i as int]));
                    lemma_object_index(self.objects@, key@, i as int);
                    assert forall|k: Seq<char>| k != key@ implies (#[trigger] has_object(
                        self.objects@,
                        k,
                    ) <==> has_object(old_objs, k)) by {
                        if has_object(self.objects@, k) {
                            let j = object_index(self.objects@, k);
                            assert(old_objs[j].key@ == k);
                        }
                        if has_object(old_objs, k) {
                            let j = object_index(old_objs, k);
                            assert(self.objects@[j].key@ == k);
                        }
                    }
                    assert forall|k: Seq<char>|
                        k != key@ && has_object(old_objs, k) implies #[trigger] object_data(
                        self.objects@,
                        k,
                    ) == object_data(old_objs, k) by {
                        let j = object_index(old_objs, k);
                        lemma_object_index(old_objs, k, j);
                        lemma_object_index(self.objects@, k, j);
                    }
                }
            },
            None => {
                self.objects.push(obj);
                proof {
                    assert(self.objects@ == old_objs.push(self.objects@[old_objs.len() as int]));
                    lemma_object_index(self.objects@, key@, old_objs.len() as int);
                    assert forall|k: Seq<char>| k != key@ implies (#[trigger] has_object(
                        self.objects@,
                        k,
                    ) <==> has_object(old_objs, k)) by {
                        if has_object(self.objects@, k) {
                            let j = object_index(self.objects@, k);
                            assert(old_objs[j].key@ == k);
                        }
                        if has_object(old_objs, k) {
                            let j = object_index(old_objs, k);
                            assert(self.objects@[j].key@ == k);
                        }
                    }
                    assert forall|k: Seq<char>|
                        k != key@ && has_object(old_objs, k) implies #[trigger] object_data(
                        self.objects@,
                        k,
                    ) == object_data(old_objs, k) by {
                        let j = object_index(old_objs, k);
                        lemma_object_index(old_objs, k, j);
                        lemma_object_index(self.objects@, k, j);
                    }
                }
            },
        }
        self.next_tag = self.next_tag + 1;
        etag
    }

    /// Whole-object read.
    pub fn get(&self, key: &str) -> (r: Option<&Vec<u8>>)
        requires
            self.wf(),
        ensures
            r is Some <==> has_object(self.objects@, key@),
            r matches Some(d) ==> d@ == object_data(self.objects@, key@),
    {
        match self.find_object(key) {
            Some(i) => Some(&self.objects[i].data),
            None => None,
        }
    }

    /// Whole-object delete; deleting an absent key is a no-op.
    pub fn delete(&mut self, key: &str)
        requires
            old(self).wf(),
        ensures
            final(self).wf(),
            !has_object(final(self).objects@, key@),
            preserves_other_objects(old(self).objects@, final(self).objects@, key@),
            final(self).sessions@ == old(self).sessions@,
            final(self).next_tag == old(self).next_tag,
    {
        let ghost old_objs = self.objects@;
        match self.find_object(key) {
            Some(i) => {
                self.objects.remove(i);
                proof {
                    assert(self.objects@ == old_objs.remove(i as int));
                    assert forall|k: Seq<char>| k != key@ implies (#[trigger] has_object(
                        self.objects@,
                        k,
                    ) <==> has_object(old_objs, k)) by {
                        if has_object(self.objects@, k) {
                            let j = object_index(self.objects@, k);
                            if j < i {
                                assert(old_objs[j].key@ == k);
                            } else {
                                assert(old_objs[j + 1].key@ == k);
                            }
                        }
                        if has_object(old_objs, k) {
                            let j = object_index(old_objs, k);
                            assert(old_objs[j].key@ == k);
                            if j < i {
                                assert(self.objects@[j].key@ == k);
                            } else {
                                assert(j != i);
                                assert(self.objects@[j - 1].key@ == k);
                            }
                        }
                    }
                    assert forall|k: Seq<char>|
                        k != key@ && has_object(old_objs, k) implies #[trigger] object_data(
                        self.objects@,
                        k,
                    ) == object_data(old_objs, k) by {
                        let j = object_index(old_objs, k);
                        lemma_object_index(old_objs, k, j);
                        if j < i {
                            lemma_object_index(self.objects@, k, j);
                        } else {
                            lemma_object_index(self.objects@, k, j - 1);
                        }
                    }
                    if has_object(self.objects@, key@) {
                        let j = object_index(self.objects@, key@);
                        if j < i {
                            assert(old_objs[j].key@ == key@);
                            lemma_object_index(old_objs, key@, j);
                        } else {
                            assert(old_objs[j + 1].key@ == key@);
                            lemma_object_index(old_objs, key@, j + 1);
                        }
                        assert(false);
                    }
                }
            },
            None => {
                proof {
                    assert(self.objects@ =~= old_objs);
                }
            },
        }
    }

    /// Opens a multipart session for `key` and returns its fresh id.
    pub fn create_upload(&mut self, key: &str) -> (upload_id: String)
        requires
            old(self).wf(),
            old(self).next_tag < u64::MAX,
        ensures
            final(self).wf(),
            upload_id@ == upload_id_of(old(self).next_tag),
            final(self).objects@ == old(self).objects@,
            final(self).next_tag == old(self).next_tag + 1,
            final(self).sessions@.len() == old(self).sessions@.len() + 1,
            final(self).sessions@.drop_last() == old(self).sessions@,
            final(self).sessions@.last().key@ == key@,
            final(self).sessions@.last().upload_id@ == upload_id@,
            final(self).sessions@.last().parts@.len() == 0,
            has_session(final(self).sessions@, key@, upload_id@),
            session_index(final(self).sessions@, key@, upload_id@) == old(self).sessions@.len(),
    {
        let upload_id = make_upload_id(self.next_tag);
        let session = UploadSession {
            upload_id: upload_id.clone(),
            tag: self.next_tag,
            key: String::from_str(key),
            parts: Vec::new(),
        };
        self.sessions.push(session);
        self.next_tag = self.next_tag + 1;
        proof {
            assert(self.sessions@.drop_last() =~= old(self).sessions@);
            lemma_session_index(*self, key@, upload_id@, old(self).sessions@.len() as int);
        }
        upload_id
    }

    /// Records one part of a session, replacing any previous part with the
    /// same number, and returns the tag issued for it. Returns `None` when
    /// no session matches the key and id.
    #[verifier::rlimit(100)]
    #[verifier::spinoff_prover]
    pub fn upload_part(&mut self, key: &str, upload_id: &str, part_number: u16, data: Vec<u8>) -> (r:
        Option<String>)
        requires
            old(self).wf(),
            old(self).next_tag < u64::MAX,
        ensures
            final(self).wf(),
            r is Some <==> has_session(old(self).sessions@, key@, upload_id@),
            r is None ==> *final(self) == *old(self),
            r matches Some(etag) ==> etag@ == etag_of(old(self).next_tag),
            r is Some ==> upload_part_post(
                *old(self),
                *final(self),
                key@,
                upload_id@,
                part_number,
                data@,
            ),
    {
        let si = match self.find_session(key, upload_id) {
            Some(si) => si,
            None => {
                return None;
            },
        };
        let etag = make_etag(self.next_tag);
        let part = UploadedPart { part_number, etag: etag.clone(), data };
        let ghost old_parts = self.sessions@[si as int].parts@;
        let ghost old_self = *self;

        let found = find_part(&self.sessions[si].parts, part_number);
        let sess = vstd::std_specs::vec::vec_index_mut(&mut self.sessions, si);
        match found {
            Some(pi) => {
                sess.parts.set(pi, part);
            },
            None => {
                sess.parts.push(part);
            },
        }
        proof {
            let i = si as int;
            lemma_session_index(old_self, key@, upload_id@, i);
            let ps = self.sessions@[i].parts@;
            assert forall|m: int, n: int|
                0 <= m < n < old_parts.len() implies (#[trigger] old_parts[m]).part_number != (
            #[trigger] old_parts[n]).part_number by {
                assert(old_self.sessions@[i].parts@[m] == old_parts[m]);
                assert(old_self.sessions@[i].parts@[n] == old_parts[n]);
            }
            match found {
                Some(pi) => {
                    assert(ps == old_parts.update(pi as int, ps[pi as int]));
                },
                None => {
                    assert(ps == old_parts.push(ps[old_parts.len() as int]));
                },
            }
            assert forall|m: int, n: int|
                0 <= m < n < ps.len() implies (#[trigger] ps[m]).part_number != (
            #[trigger] ps[n]).part_number by {
                match found {
                    Some(pi) => {
                        assert(old_parts[pi as int].part_number == part_number);
                    },
                    None => {
                        if ps[m].part_number == ps[n].part_number {
                            if n == old_parts.len() {
                                assert(old_parts[m].part_number == part_number);
                                assert(has_part(old_parts, part_number));
                            }
                            assert(false);
                        }
                    },
                }
            }
            match found {
                Some(pi) => {
                    lemma_part_index(ps, part_number, pi as int);
                },
                None => {
                    lemma_part_index(ps, part_number, old_parts.len() as int);
                },
            }
            assert forall|m: u16| m != part_number implies (#[trigger] has_part(ps, m)
                <==> has_part(old_parts, m)) by {
                if has_part(ps, m) {
                    let j = part_index(ps, m);
                    assert(old_parts[j].part_number == m);
                }
                if has_part(old_parts, m) {
                    let j = part_index(old_parts, m);
                    lemma_part_index(old_parts, m, j);
                    assert(ps[j].part_number == m);
                }
            }
            assert forall|m: u16| m != part_number && has_part(old_parts, m) implies {
                &&& #[trigger] part_data(ps, m) == part_data(old_parts, m)
                &&& part_etag(ps, m) == part_etag(old_parts, m)
            } by {
                let j = part_index(old_parts, m);
                lemma_part_index(old_parts, m, j);
                lemma_part_index(ps, m, j);
            }
            assert forall|a: int, m: int, n: int|
                #![trigger self.sessions@[a].parts@[m], self.sessions@[a].parts@[n]]
                0 <= a < self.sessions@.len() && 0 <= m < n < self.sessions@[a].parts@.len()
                    implies self.sessions@[a].parts@[m].part_number
                    != self.sessions@[a].parts@[n].part_number by {
                if a != i {
                    assert(self.sessions@[a] == old_self.sessions@[a]);
                    assert(old_self.sessions@[a].parts@[m].part_number
                        != old_self.sessions@[a].parts@[n].part_number);
                }
            }
        }
        self.next_tag = self.next_tag + 1;
        proof {
            let i = session_index(old(self).sessions@, key@, upload_id@);
            assert(i == si as int);
            let ps = self.sessions@[i].parts@;
            assert(etag@ == etag_of(old(self).next_tag));
            assert(self.objects@ == old(self).objects@);
            assert(self.next_tag == old(self).next_tag + 1);
            assert(self.sessions@.len() == old(self).sessions@.len());
            assert(forall|j: int|
                0 <= j < old(self).sessions@.len() && j != i ==> self.sessions@[j] == old(
                    self,
                ).sessions@[j]);
            assert(self.sessions@[i].key@ == key@);
            assert(self.sessions@[i].upload_id@ == upload_id@);
            assert(self.sessions@[i].tag == old(self).sessions@[i].tag);
            assert(has_part(ps, part_number));
            assert(part_data(ps, part_number) == data@);
            assert(part_etag(ps, part_number) == etag_of(old(self).next_tag));
            assert(forall|m: u16|
                m != part_number ==> (#[trigger] has_part(ps, m) <==> has_part(
                    old(self).sessions@[i].parts@,
                    m,
                )));
            assert(forall|m: u16|
                m != part_number && has_part(old(self).sessions@[i].parts@, m) ==> {
                    &&& #[trigger] part_data(ps, m) == part_data(old(self).sessions@[i].parts@, m)
                    &&& part_etag(ps, m) == part_etag(old(self).sessions@[i].parts@, m)
                });
            assert(self.wf());
            lemma_upload_part_post_intro(
                *old(self),
                *self,
                key@,
                upload_id@,
                part_number,
                data@,
                si as int,
            );
        }
        Some(etag)
    }

    /// Completes a session into a stored object. Fails, changing nothing,
    /// when no session matches or when the submitted part list is out of
    /// order or incomplete relative to what was actually uploaded.
    pub fn complete_upload(
        &mut self,
        key: &str,
        upload_id: &str,
        parts: &Vec<MultipartPartResponse>,
    ) -> (r: Option<String>)
        requires
            old(self).wf(),
            old(self).next_tag < u64::MAX,
        ensures
            final(self).wf(),
            !has_session(old(self).sessions@, key@, upload_id@) ==> r is None && *final(self)
                == *old(self),
            has_session(old(self).sessions@, key@, upload_id@) ==> {
                let i = session_index(old(self).sessions@, key@, upload_id@);
                let stored = old(self).sessions@[i].parts@;
                if parts_complete_ok(stored, parts@) {
                    &&& r matches Some(etag) && etag@ == etag_of(old(self).next_tag)
                    &&& has_object(final(self).objects@, key@)
                    &&& object_data(final(self).objects@, key@) == assembled_data(
                        stored,
                        stored.len() as int,
                    )
                    &&& preserves_other_objects(old(self).objects@, final(self).objects@, key@)
                    &&& final(self).sessions@ == old(self).sessions@.remove(i)
                    &&& final(self).next_tag == old(self).next_tag + 1
                } else {
                    r is None && *final(self) == *old(self)
                }
            },
    {
        let si = match self.find_session(key, upload_id) {
            Some(si) => si,
            None => {
                return None;
            },
        };
        let ghost stored = self.sessions@[si as int].parts@;

        if parts.len() != self.sessions[si].parts.len() {
            proof {
                assert(!parts_complete_ok(stored, parts@));
            }
            return None;
        }

        // Check the submitted list and assemble the object's bytes.
        let m = parts.len();
        let mut data: Vec<u8> = Vec::new();
        let mut i: usize = 0;
        while i < m
            invariant
                self.wf(),
                *self == *old(self),
                0 <= i <= m,
                si < self.sessions@.len(),
                self.sessions@[si as int].key@ == key@,
                self.sessions@[si as int].upload_id@ == upload_id@,
                session_index(self.sessions@, key@, upload_id@) == si as int,
                has_session(self.sessions@, key@, upload_id@),
                self.sessions@[si as int].parts@ == stored,
                m == parts@.len(),
                m == stored.len(),
                forall|j: int|
                    0 <= j < i ==> (#[trigger] parts@[j]).part_number as int == j + 1 && has_part(
                        stored,
                        parts@[j].part_number,
                    ) && part_etag(stored, parts@[j].part_number) == parts@[j].etag@,
                data@ == assembled_data(stored, i as int),
            decreases m - i,
        {
            if parts[i].part_number as usize != i + 1 {
                proof {
                    assert(parts@[i as int].part_number as int != i as int + 1);
                    assert(!parts_complete_ok(stored, parts@));
                }
                return None;
            }
            // Find the stored part carrying this number.
            let pj = match find_part(&self.sessions[si].parts, parts[i].part_number) {
                Some(pj) => pj,
                None => {
                    proof {
                        assert(!has_part(stored, parts@[i as int].part_number));
                        assert(!parts_complete_ok(stored, parts@));
                    }
                    return None;
                },
            };
            proof {
                lemma_part_index(stored, parts@[i as int].part_number, pj as int);
            }
            if !str_eq(self.sessions[si].parts[pj].etag.as_str(), parts[i].etag.as_str()) {
                proof {
                    assert(part_etag(stored, parts@[i as int].part_number) != parts@[
                        i as int
                    ].etag@);
                    assert(!parts_complete_ok(stored, parts@));
                }
                return None;
            }
            // Append this part's bytes.
            let plen = self.sessions[si].parts[pj].data.len();
            let mut b: usize = 0;
            while b < plen
                invariant
                    0 <= b <= plen,
                    si < self.sessions@.len(),
                    self.sessions@[si as int].parts@ == stored,
                    pj < stored.len(),
                    plen == stored[pj as int].data@.len(),
                    data@ == assembled_data(stored, i as int) + stored[pj as int].data@.subrange(
                        0,
                        b as int,
                    ),
                decreases plen - b,
            {
                let byte = self.sessions[si].parts[pj].data[b];
                data.push(byte);
                proof {
                    let pd = stored[pj as int].data@;
                    assert(pd.subrange(0, b + 1int) =~= pd.subrange(0, b as int).push(byte));
                }
                b = b + 1;
            }
            proof {
                let pd = stored[pj as int].data@;
                assert(pd.subrange(0, plen as int) =~= pd);
                assert(part_data(stored, parts@[i as int].part_number) == stored[pj as int].data@);
                assert(parts@[i as int].part_number as int == i + 1);
                assert(data@ == assembled_data(stored, i as int + 1));
            }
            i = i + 1;
        }

        proof {
            assert(parts_complete_ok(stored, parts@));
            lemma_session_index(*self, key@, upload_id@, si as int);
        }
        let ghost pre = *self;
        self.sessions.remove(si);
        proof {
            let oldss = pre.sessions@;
            let newss = self.sessions@;
            assert(newss == oldss.remove(si as int));
            assert forall|a: int| 0 <= a < newss.len() implies #[trigger] newss[a] == (if a
                < si as int {
                oldss[a]
            } else {
                oldss[a + 1]
            }) by {}
            assert(self.wf());
        }
        let etag = self.put(key, data);
        Some(etag)
    }

    /// Aborts a session, releasing its parts; no object is produced.
    pub fn abort_upload(&mut self, key: &str, upload_id: &str) -> (r: bool)
        requires
            old(self).wf(),
        ensures
            final(self).wf(),
            r == has_session(old(self).sessions@, key@, upload_id@),
            !r ==> *final(self) == *old(self),
            r ==> {
                &&& final(self).sessions@ == old(self).sessions@.remove(
                    session_index(old(self).sessions@, key@, upload_id@),
                )
                &&& final(self).objects@ == old(self).objects@
                &&& final(self).next_tag == old(self).next_tag
            },
            !has_session(final(self).sessions@, key@, upload_id@),
    {
        let ghost old_sessions = self.sessions@;
        match self.find_session(key, upload_id) {
            Some(i) => {
                self.sessions.remove(i);
                proof {
                    assert(self.sessions@ == old_sessions.remove(i as int));
                    if has_session(self.sessions@, key@, upload_id@) {
                        let j = session_index(self.sessions@, key@, upload_id@);
                        let jj: int = if j < i as int {
                            j
                        } else {
                            j + 1
                        };
                        assert(old_sessions[jj].key@ == key@ && old_sessions[jj].upload_id@
                            == upload_id@);
                        lemma_session_index(*old(self), key@, upload_id@, jj);
                        assert(jj == i as int);
                        assert(false);
                    }
                }
                true
            },
            None => false,
        }
    }
}

/// First stored part carrying number `n`, if any.
fn find_part(ps: &Vec<UploadedPart>, n: u16) -> (r: Option<usize>)
    ensures
        match r {
            Some(i) => i < ps@.len() && ps@[i as int].part_number == n,
            None => !has_part(ps@, n),
        },
{
    let len = ps.len();
    let mut i: usize = 0;
    while i < len
        invariant
            0 <= i <= len,
            len == ps@.len(),
            forall|j: int| 0 <= j < i ==> (#[trigger] ps@[j]).part_number != n,
        decreases len - i,
    {
        if ps[i].part_number == n {
            return Some(i);
        }
        i = i + 1;
    }
    None
}

fn make_upload_id(tag: u64) -> (r: String)
    ensures
        r@ == upload_id_of(tag),
{
    proof {
        reveal_strlit("u");
    }
    let mut s = String::from_str("u");
    let d = u64_to_dec(tag);
    s.append(d.as_str());
    proof {
        assert(s@ =~= upload_id_of(tag));
    }
    s
}

fn make_etag(tag: u64) -> (r: String)
    ensures
        r@ == etag_of(tag),
{
    proof {
        reveal_strlit("e");
    }
    let mut s = String::from_str("e");
    let d = u64_to_dec(tag);
    s.append(d.as_str());
    proof {
        assert(s@ =~= etag_of(tag));
    }
    s
}

} // verus!
