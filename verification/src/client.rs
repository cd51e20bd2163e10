//! The typed client of the coordinator's surface: it validates platforms
//! before any request goes out, computes each artifact's checksum locally,
//! drives the multipart create/upload-parts/complete/finish sequence, and
//! normalizes outcomes into one error taxonomy. It never retries: every
//! call returns a typed success or a typed error.

use vstd::prelude::*;
use vstd::string::StrSliceExecFns;
use vstd::string::StringExecFns;

use sha2::Digest;

use crate::models::{
    CompleteVersionRequest, DeleteResponse, MultipartPartResponse, UploadResponse, VersionResponse,
};
use crate::platform::{is_supported_platform, supported_platform};
use crate::registry::has_row;
use crate::server::{auth_ok, bearer_of, ApiBody, ApiResponse, VersionServer};

verus! {

/// The client's error taxonomy. Transport, I/O and serialization failures
/// carry the underlying error rendered as text.
#[derive(Debug, Clone, PartialEq, Eq)]
pub enum VersionServerError {
    Http(String),
    Api { status: u16, message: String },
    Authentication,
    VersionNotFound,
    UnsupportedPlatform(String),
    Io(String),
    Serialization(String),
}

/// The lowercase hex digest sha2 computes for these bytes; a function of
/// the bytes alone.
pub uninterp spec fn sha256_hex_of(bytes: Seq<u8>) -> Seq<char>;

/// Relies on sha2's `Sha256` (`new`, `update`, `finalize`) and on the
/// digest's lower-hex rendering: two lowercase hex digits per digest byte,
/// 64 characters for the 32-byte digest, a function of the input alone.
#[verifier::external_body]
pub fn sha256_hex(data: &[u8]) -> (r: String)
    ensures
        r@ == sha256_hex_of(data@),
        r@.len() == 64,
{
    let mut hasher = sha2::Sha256::new();
    hasher.update(data);
    format!("{:x}", hasher.finalize())
}

/// The string under the `"error"` key when the text parses as a JSON
/// object carrying one; a function of the text alone.
pub uninterp spec fn error_field_of(body: Seq<char>) -> Option<Seq<char>>;

/// Relies on serde_json's `from_str`, `Value::get` and `Value::as_str`:
/// extracts the `"error"` string of a structured error body, or nothing
/// when the text is not such a JSON object.
#[verifier::external_body]
fn json_error_field(body: &str) -> (r: Option<String>)
    ensures
        match r {
            Some(m) => error_field_of(body@) == Some(m@),
            None => error_field_of(body@) is None,
        },
{
    let v: serde_json::Value = serde_json::from_str(body).ok()?;
    Some(v.get("error")?.as_str()?.to_string())
}

/// Normalizes a raw HTTP outcome into the error taxonomy: 401 means the
/// bearer token was rejected, 404 means the version or platform does not
/// exist, and anything else carries the structured error message when the
/// body holds one, else the body text itself.
pub fn classify_response(status: u16, body: &str) -> (e: VersionServerError)
    ensures
        status == 401 ==> e is Authentication,
        status == 404 ==> e is VersionNotFound,
        (status != 401 && status != 404) ==> (e matches VersionServerError::Api {
            status: s,
            message,
        } && s == status && (match error_field_of(body@) {
            Some(m) => message@ == m,
            None => message@ == body@,
        })),
{
    if status == 401 {
        VersionServerError::Authentication
    } else if status == 404 {
        VersionServerError::VersionNotFound
    } else {
        let message = match json_error_field(body) {
            Some(m) => m,
            None => String::from_str(body),
        };
        VersionServerError::Api { status, message }
    }
}

/// Maps a typed response (already parsed) the same way.
fn error_of(resp: &ApiResponse) -> (e: VersionServerError)
    ensures
        resp.status == 401 ==> e is Authentication,
        resp.status == 404 ==> e is VersionNotFound,
        (resp.status != 401 && resp.status != 404) ==> (e matches VersionServerError::Api {
            status: s,
            message,
        } && s == resp.status),
{
    if resp.status == 401 {
        VersionServerError::Authentication
    } else if resp.status == 404 {
        VersionServerError::VersionNotFound
    } else {
        let message = match &resp.body {
            ApiBody::Error(e) => e.error.clone(),
            _ => String::new(),
        };
        VersionServerError::Api { status: resp.status, message }
    }
}

/// `s` with every trailing `/` removed.
pub open spec fn trim_trailing_slashes(s: Seq<char>) -> Seq<char>
    decreases s.len(),
{
    if s.len() > 0 && s.last() == '/' {
        trim_trailing_slashes(s.drop_last())
    } else {
        s
    }
}

/// Chunk size for client-driven multipart uploads: 50 MiB.
pub const CHUNK_SIZE: usize = 50 * 1024 * 1024;

/// `data` cut into chunks of at most `size` bytes, in order.
pub open spec fn chunks_spec(data: Seq<u8>, size: int) -> Seq<Seq<u8>>
    decreases data.len(),
{
    if size <= 0 || data.len() == 0 {
        Seq::empty()
    } else if data.len() <= size {
        seq![data]
    } else {
        seq![data.take(size)] + chunks_spec(data.skip(size), size)
    }
}

/// The chunks joined back together, in order.
pub open spec fn concat_chunks(cs: Seq<Seq<u8>>) -> Seq<u8>
    decreases cs.len(),
{
    if cs.len() == 0 {
        Seq::empty()
    } else {
        cs[0] + concat_chunks(cs.drop_first())
    }
}

pub proof fn lemma_concat_chunks_snoc(cs: Seq<Seq<u8>>, x: Seq<u8>)
    ensures
        concat_chunks(cs.push(x)) == concat_chunks(cs) + x,
    decreases cs.len(),
{
    if cs.len() == 0 {
        assert(cs.push(x).drop_first() =~= Seq::<Seq<u8>>::empty());
        assert(cs.push(x)[0] == x);
        assert(concat_chunks(cs.push(x)) == x + concat_chunks(Seq::<Seq<u8>>::empty()));
        assert(concat_chunks(cs.push(x)) =~= concat_chunks(cs) + x);
    } else {
        assert(cs.push(x).drop_first() =~= cs.drop_first().push(x));
        assert(cs.push(x)[0] == cs[0]);
        lemma_concat_chunks_snoc(cs.drop_first(), x);
        assert(concat_chunks(cs.push(x)) == cs[0] + (concat_chunks(cs.drop_first()) + x));
        assert(concat_chunks(cs) == cs[0] + concat_chunks(cs.drop_first()));
        assert(cs[0] + (concat_chunks(cs.drop_first()) + x) =~= (cs[0] + concat_chunks(
            cs.drop_first(),
        )) + x);
    }
}

/// Chunking loses nothing: the chunks concatenate back to the data.
pub proof fn lemma_chunks_concat(data: Seq<u8>, size: int)
    requires
        size >= 1,
    ensures
        concat_chunks(chunks_spec(data, size)) == data,
    decreases data.len(),
{
    if data.len() == 0 {
        assert(concat_chunks(chunks_spec(data, size)) =~= data);
    } else if data.len() <= size {
        assert(chunks_spec(data, size) == seq![data]);
        assert(seq![data].drop_first() =~= Seq::<Seq<u8>>::empty());
        assert(seq![data][0] == data);
        assert(concat_chunks(chunks_spec(data, size)) == data + concat_chunks(
            Seq::<Seq<u8>>::empty(),
        ));
        assert(concat_chunks(chunks_spec(data, size)) =~= data);
    } else {
        lemma_chunks_concat(data.skip(size), size);
        let cs = chunks_spec(data, size);
        assert(cs.drop_first() =~= chunks_spec(data.skip(size), size));
        assert(cs[0] == data.take(size));
        assert(data.take(size) + data.skip(size) =~= data);
    }
}

/// The views of a sequence of chunk vectors.
pub open spec fn views_of_chunks(v: Seq<Vec<u8>>) -> Seq<Seq<u8>> {
    Seq::new(v.len(), |i: int| v[i]@)
}

/// Cuts `data` into chunks of at most `size` bytes.
pub fn chunk_bytes(data: &Vec<u8>, size: usize) -> (r: Vec<Vec<u8>>)
    requires
        size >= 1,
    ensures
        views_of_chunks(r@) == chunks_spec(data@, size as int),
{
    let len = data.len();
    let mut out: Vec<Vec<u8>> = Vec::new();
    let mut off: usize = 0;
    proof {
        assert(data@.skip(0) =~= data@);
        assert(views_of_chunks(out@) =~= chunks_spec(data@, size as int).take(0));
    }
    while off < len
        invariant
            size >= 1,
            0 <= off <= len,
            len == data@.len(),
            chunks_spec(data@, size as int) == views_of_chunks(out@) + chunks_spec(
                data@.skip(off as int),
                size as int,
            ),
        decreases len - off,
    {
        let ghost prev = out@;
        let end = if len - off > size {
            off + size
        } else {
            len
        };
        let chunk = vstd::slice::slice_to_vec(
            vstd::slice::slice_subrange(data.as_slice(), off, end),
        );
        out.push(chunk);
        proof {
            let rest = data@.skip(off as int);
            assert(views_of_chunks(out@) =~= views_of_chunks(prev).push(data@.subrange(
                off as int,
                end as int,
            )));
            if len - off > size {
                assert(rest.take(size as int) =~= data@.subrange(off as int, end as int));
                assert(rest.skip(size as int) =~= data@.skip(end as int));
            } else {
                assert(rest =~= data@.subrange(off as int, end as int));
            }
            assert(chunks_spec(data@, size as int) =~= views_of_chunks(out@) + chunks_spec(
                data@.skip(end as int),
                size as int,
            ));
        }
        off = end;
    }
    proof {
        assert(data@.skip(len as int) =~= Seq::<u8>::empty());
        assert(views_of_chunks(out@) + chunks_spec(data@.skip(len as int), size as int)
            =~= views_of_chunks(out@));
    }
    out
}

/// The typed request client: the server's base address and the bearer
/// secret presented on mutating calls.
pub struct VersionServerClient {
    pub base_url: String,
    pub api_key: Option<String>,
}

/// Two bearer headers agree only on equal secrets.
pub proof fn lemma_bearer_injective(a: Seq<char>, b: Seq<char>)
    requires
        bearer_of(a) == bearer_of(b),
    ensures
        a == b,
{
    assert(a =~= bearer_of(a).skip("Bearer "@.len() as int));
    assert(b =~= bearer_of(b).skip("Bearer "@.len() as int));
}

impl VersionServerClient {
    /// A client of the server at `base_url`; trailing slashes are dropped
    /// so paths can be appended uniformly.
    pub fn new(base_url: &str) -> (r: VersionServerClient)
        ensures
            r.base_url@ == trim_trailing_slashes(base_url@),
            r.api_key is None,
    {
        let mut n = base_url.unicode_len();
        proof {
            assert(base_url@.take(n as int) =~= base_url@);
        }
        while n > 0 && base_url.get_char(n - 1) == '/'
            invariant
                0 <= n <= base_url@.len(),
                trim_trailing_slashes(base_url@) == trim_trailing_slashes(
                    base_url@.take(n as int),
                ),
            decreases n,
        {
            proof {
                assert(base_url@.take(n as int).drop_last() =~= base_url@.take(n - 1));
            }
            n = n - 1;
        }
        proof {
            if n > 0 {
                assert(base_url@.take(n as int).last() == base_url@[n - 1]);
            }
            assert(trim_trailing_slashes(base_url@.take(n as int)) == base_url@.take(n as int));
        }
        let trimmed = base_url.substring_char(0, n);
        proof {
            assert(trimmed@ =~= base_url@.take(n as int));
        }
        VersionServerClient { base_url: String::from_str(trimmed), api_key: None }
    }

    /// The same client, authenticated with `api_key`.
    pub fn with_api_key(self, api_key: &str) -> (r: VersionServerClient)
        ensures
            r.base_url == self.base_url,
            r.api_key matches Some(k) && k@ == api_key@,
    {
        VersionServerClient { base_url: self.base_url, api_key: Some(String::from_str(api_key)) }
    }

    pub fn base_url(&self) -> (r: &str)
        ensures
            r@ == self.base_url@,
    {
        self.base_url.as_str()
    }

    /// The `Authorization` header this client presents, if any.
    pub open spec fn auth_header_spec(&self) -> Option<Seq<char>> {
        match self.api_key {
            Some(k) => Some(bearer_of(k@)),
            None => None,
        }
    }

    /// The client authenticates against `secret` exactly when it holds it.
    pub open spec fn authenticates(&self, secret: Seq<char>) -> bool {
        self.api_key matches Some(k) && k@ == secret
    }

    fn auth_header(&self) -> (r: Option<String>)
        ensures
            match r {
                Some(h) => self.auth_header_spec() == Some(h@),
                None => self.auth_header_spec() is None,
            },
            forall|secret: Seq<char>| auth_ok(r, secret) <==> self.authenticates(secret),
    {
        proof {
            reveal_strlit("Bearer ");
        }
        match &self.api_key {
            Some(k) => {
                let mut h = String::from_str("Bearer ");
                h.append(k.as_str());
                proof {
                    assert(h@ =~= bearer_of(k@));
                    assert forall|secret: Seq<char>|
                        auth_ok(Some(h), secret) <==> self.authenticates(secret) by {
                        if h@ == bearer_of(secret) {
                            lemma_bearer_injective(k@, secret);
                        }
                    }
                }
                Some(h)
            },
            None => None,
        }
    }

    /// `GET /versions`, aggregated one entry per version.
    pub fn list_versions(&self, server: &mut VersionServer, app_name: &str) -> (r: Result<
        Vec<VersionResponse>,
        VersionServerError,
    >)
        requires
            old(server).wf(),
        ensures
            final(server).wf(),
            final(server).registry == old(server).registry,
            final(server).store == old(server).store,
            final(server).api_key == old(server).api_key,
            r matches Ok(versions) && crate::listing::listing_matches(
                versions@,
                old(server).registry.rows@,
                app_name@,
            ),
    {
        let resp = server.handle_list(app_name);
        match resp.body {
            ApiBody::VersionList { app_name: _, versions } => Ok(versions),
            _ => {
                proof {
                    assert(false);
                }
                Err(error_of(&resp))
            },
        }
    }

    /// Latest version carrying `platform`: `Ok(None)` when no row does,
    /// the unsupported-platform error before any request when the name is
    /// not in the supported set.
    pub fn get_latest_version(
        &self,
        server: &mut VersionServer,
        app_name: &str,
        platform: &str,
    ) -> (r: Result<Option<VersionResponse>, VersionServerError>)
        requires
            old(server).wf(),
        ensures
            final(server).wf(),
            final(server).registry == old(server).registry,
            final(server).store == old(server).store,
            final(server).api_key == old(server).api_key,
            !supported_platform(platform@) ==> *final(server) == *old(server) && (
            r matches Err(VersionServerError::UnsupportedPlatform(p)) && p@ == platform@),
            (supported_platform(platform@) && crate::registry::latest_row(
                old(server).registry.rows@,
                app_name@,
                platform@,
            ) is None) ==> (r matches Ok(o) && o is None),
            (supported_platform(platform@) && crate::registry::latest_row(
                old(server).registry.rows@,
                app_name@,
                platform@,
            ) is Some) ==> {
                let row = crate::registry::latest_row(
                    old(server).registry.rows@,
                    app_name@,
                    platform@,
                )->Some_0;
                r matches Ok(o) && o matches Some(v) && v.app_name@ == app_name@ && v.version@
                    == row.version@ && v.timestamp@ == row.timestamp@ && crate::strutil::views_of_strings(
                    v.platforms@,
                ) == seq![platform@] && crate::strutil::views_of_pairs(v.sha256s@) == seq![
                    (platform@, row.sha256@),
                ]
            },
    {
        if !is_supported_platform(platform) {
            return Err(VersionServerError::UnsupportedPlatform(String::from_str(platform)));
        }
        let resp = server.handle_latest(app_name, platform);
        if resp.status == 404 {
            return Ok(None);
        }
        match resp.body {
            ApiBody::Latest(l) => {
                let mut platforms: Vec<String> = Vec::new();
                platforms.push(l.platform.clone());
                let mut sha256s: Vec<(String, String)> = Vec::new();
                sha256s.push((l.platform, l.sha256));
                proof {
                    assert(crate::strutil::views_of_strings(platforms@) =~= seq![platform@]);
                    let row = crate::registry::latest_row(
                        old(server).registry.rows@,
                        app_name@,
                        platform@,
                    )->Some_0;
                    assert(crate::strutil::views_of_pairs(sha256s@) =~= seq![
                        (platform@, row.sha256@),
                    ]);
                }
                Ok(Some(VersionResponse {
                    app_name: l.app_name,
                    version: l.version,
                    timestamp: l.timestamp,
                    platforms,
                    sha256s,
                }))
            },
            _ => {
                proof {
                    assert(false);
                }
                Err(error_of(&resp))
            },
        }
    }

    /// Downloads one artifact's exact bytes; `version` may be `latest`.
    pub fn download_version(
        &self,
        server: &mut VersionServer,
        app_name: &str,
        platform: &str,
        version: &str,
    ) -> (r: Result<Vec<u8>, VersionServerError>)
        requires
            old(server).wf(),
        ensures
            final(server).wf(),
            final(server).registry == old(server).registry,
            final(server).store == old(server).store,
            final(server).api_key == old(server).api_key,
            !supported_platform(platform@) ==> *final(server) == *old(server) && (
            r matches Err(VersionServerError::UnsupportedPlatform(p)) && p@ == platform@),
            (supported_platform(platform@) && version@ != "latest"@ && has_row(
                old(server).registry.rows@,
                app_name@,
                version@,
                platform@,
            )) ==> (r matches Ok(data) && data@ == crate::store::object_data(
                old(server).store.objects@,
                crate::keys::artifact_key_spec(app_name@, version@, platform@),
            )),
            (supported_platform(platform@) && version@ != "latest"@ && !has_row(
                old(server).registry.rows@,
                app_name@,
                version@,
                platform@,
            )) ==> (r matches Err(e) && e is VersionNotFound),
            (supported_platform(platform@) && version@ == "latest"@ && crate::registry::latest_row(
                old(server).registry.rows@,
                app_name@,
                platform@,
            ) is Some) ==> {
                let row = crate::registry::latest_row(
                    old(server).registry.rows@,
                    app_name@,
                    platform@,
                )->Some_0;
                r matches Ok(data) && data@ == crate::store::object_data(
                    old(server).store.objects@,
                    crate::keys::artifact_key_spec(app_name@, row.version@, platform@),
                )
            },
            (supported_platform(platform@) && version@ == "latest"@ && crate::registry::latest_row(
                old(server).registry.rows@,
                app_name@,
                platform@,
            ) is None) ==> (r matches Err(e) && e is VersionNotFound),
    {
        if !is_supported_platform(platform) {
            return Err(VersionServerError::UnsupportedPlatform(String::from_str(platform)));
        }
        let resp = server.handle_download(app_name, platform, version);
        if resp.status == 404 {
            return Err(VersionServerError::VersionNotFound);
        }
        match resp.body {
            ApiBody::File(f) => Ok(f.data),
            _ => {
                proof {
                    assert(false);
                }
                Err(error_of(&resp))
            },
        }
    }

    /// Deletes a version across all platforms: blobs first, rows after.
    pub fn delete_version(&self, server: &mut VersionServer, app_name: &str, version: &str) -> (r:
        Result<DeleteResponse, VersionServerError>)
        requires
            old(server).wf(),
        ensures
            final(server).wf(),
            final(server).api_key == old(server).api_key,
            !self.authenticates(old(server).api_key@) ==> (r matches Err(e)
                && e is Authentication) && final(server).registry == old(server).registry
                && final(server).store == old(server).store,
            (self.authenticates(old(server).api_key@) && !crate::registry::has_version(
                old(server).registry.rows@,
                app_name@,
                version@,
            )) ==> (r matches Err(e) && e is VersionNotFound) && final(server).registry
                == old(server).registry && final(server).store == old(server).store,
            (self.authenticates(old(server).api_key@) && crate::registry::has_version(
                old(server).registry.rows@,
                app_name@,
                version@,
            )) ==> {
                &&& r matches Ok(d) && d.success && d.app_name@ == app_name@ && d.version@
                    == version@
                &&& crate::server::delete_committed(
                    *old(server),
                    *final(server),
                    app_name@,
                    version@,
                )
            },
    {
        let auth = self.auth_header();
        let resp = server.handle_delete(&auth, app_name, version);
        if resp.status == 401 {
            return Err(VersionServerError::Authentication);
        }
        if resp.status == 404 {
            return Err(VersionServerError::VersionNotFound);
        }
        match resp.body {
            ApiBody::Deleted(d) => Ok(d),
            _ => {
                proof {
                    assert(false);
                }
                Err(error_of(&resp))
            },
        }
    }
}

/// How many tags the store mints while these files are uploaded: one for
/// the session, one per part, one for the assembled object.
pub open spec fn upload_tags(files: Seq<(String, Vec<u8>)>, size: int) -> int
    decreases files.len(),
{
    if files.len() == 0 {
        0
    } else {
        2 + chunks_spec(files[0].1@, size).len() + upload_tags(files.drop_first(), size)
    }
}

pub proof fn lemma_upload_tags_nonneg(files: Seq<(String, Vec<u8>)>, size: int)
    ensures
        upload_tags(files, size) >= 0,
    decreases files.len(),
{
    if files.len() > 0 {
        lemma_upload_tags_nonneg(files.drop_first(), size);
    }
}

/// The platform names of the files, in order.
pub open spec fn file_platforms(files: Seq<(String, Vec<u8>)>) -> Seq<Seq<char>> {
    Seq::new(files.len(), |i: int| files[i].0@)
}

/// An object assembled from parts holding the chunks in order holds their
/// concatenation.
proof fn lemma_assembled_eq_chunks(
    stored: Seq<crate::store::UploadedPart>,
    cs: Seq<Seq<u8>>,
    n: int,
)
    requires
        0 <= n <= cs.len(),
        cs.len() <= 65535,
        forall|m: int|
            1 <= m <= cs.len() ==> #[trigger] crate::store::part_data(stored, m as u16) == cs[m
                - 1],
    ensures
        crate::store::assembled_data(stored, n) == concat_chunks(cs.take(n)),
    decreases n,
{
    if n <= 0 {
        assert(cs.take(0) =~= Seq::<Seq<u8>>::empty());
    } else {
        lemma_assembled_eq_chunks(stored, cs, n - 1);
        lemma_concat_chunks_snoc(cs.take(n - 1), cs[n - 1]);
        assert(cs.take(n - 1).push(cs[n - 1]) =~= cs.take(n));
        assert(crate::store::assembled_data(stored, n) == crate::store::assembled_data(stored, n - 1)
            + crate::store::part_data(stored, n as u16));
    }
}

/// One file's upload took: its row is committed with the checksum of its
/// bytes, and its exact bytes are retrievable at its key.
pub open spec fn uploaded_file_ok(
    srv: VersionServer,
    app: Seq<char>,
    version: Seq<char>,
    f: (String, Vec<u8>),
) -> bool {
    let key = crate::keys::artifact_key_spec(app, version, f.0@);
    &&& has_row(srv.registry.rows@, app, version, f.0@)
    &&& crate::registry::row_at(srv.registry.rows@, app, version, f.0@).sha256@ == sha256_hex_of(
        f.1@,
    )
    &&& crate::store::has_object(srv.store.objects@, key)
    &&& crate::store::object_data(srv.store.objects@, key) == f.1@
}

/// The registry changed only at the uploaded triples: every other triple
/// has a row exactly when it had one, with the very value it had.
pub open spec fn upload_rows_frame(
    pre: VersionServer,
    post: VersionServer,
    app: Seq<char>,
    version: Seq<char>,
    files: Seq<(String, Vec<u8>)>,
) -> bool {
    forall|a2: Seq<char>, v2: Seq<char>, p2: Seq<char>|
        !(a2 == app && v2 == version && file_platforms(files).contains(p2)) ==> {
            &&& (#[trigger] has_row(post.registry.rows@, a2, v2, p2) <==> has_row(
                pre.registry.rows@,
                a2,
                v2,
                p2,
            ))
            &&& (has_row(pre.registry.rows@, a2, v2, p2) ==> crate::registry::row_at(
                post.registry.rows@,
                a2,
                v2,
                p2,
            ) == crate::registry::row_at(pre.registry.rows@, a2, v2, p2))
        }
}

/// The store changed only at the uploaded files' keys: every other key
/// holds an object exactly when it did, with the very bytes it had.
pub open spec fn upload_objects_frame(
    pre: VersionServer,
    post: VersionServer,
    app: Seq<char>,
    version: Seq<char>,
    files: Seq<(String, Vec<u8>)>,
) -> bool {
    forall|k: Seq<char>|
        (forall|i: int|
            0 <= i < files.len() ==> k != crate::keys::artifact_key_spec(
                app,
                version,
                (#[trigger] files[i]).0@,
            )) ==> {
            &&& (#[trigger] crate::store::has_object(post.store.objects@, k)
                <==> crate::store::has_object(pre.store.objects@, k))
            &&& (crate::store::has_object(pre.store.objects@, k)
                ==> crate::store::object_data(post.store.objects@, k)
                == crate::store::object_data(pre.store.objects@, k))
        }
}

impl VersionServerClient {
    /// Drives the full upload of one version: per platform, the checksum
    /// of the file's bytes is computed locally, a multipart session is
    /// created, the bytes go up in 50 MiB chunks, the store assembles the
    /// object, and only then is the registry row committed with that
    /// checksum. Platforms are validated before any request is issued.
    ///
    /// The preconditions are machine limits: the store's tag counter and
    /// the registry's row counter must not run out, each file must fit in
    /// the 16-bit part numbering, and — as with a map keyed by platform —
    /// no platform may appear twice.
    pub fn upload_version(
        &self,
        server: &mut VersionServer,
        app_name: &str,
        version: &str,
        files: &Vec<(String, Vec<u8>)>,
    ) -> (r: Result<UploadResponse, VersionServerError>)
        requires
            old(server).wf(),
            old(server).store.next_tag + upload_tags(files@, CHUNK_SIZE as int) <= u64::MAX,
            old(server).registry.next_id + files@.len() <= i64::MAX,
            forall|i: int, j: int|
                0 <= i < j < files@.len() ==> (#[trigger] files@[i]).0@ != (
                #[trigger] files@[j]).0@,
            forall|i: int|
                0 <= i < files@.len() ==> chunks_spec(
                    (#[trigger] files@[i]).1@,
                    CHUNK_SIZE as int,
                ).len() <= 65535,
        ensures
            final(server).wf(),
            final(server).api_key == old(server).api_key,
            (exists|i: int|
                0 <= i < files@.len() && !supported_platform((#[trigger] files@[i]).0@)) ==> {
                &&& *final(server) == *old(server)
                &&& r matches Err(VersionServerError::UnsupportedPlatform(p)) && exists|i: int|
                    0 <= i < files@.len() && (#[trigger] files@[i]).0@ == p@ && !supported_platform(
                        p@,
                    )
            },
            (forall|i: int| 0 <= i < files@.len() ==> supported_platform((#[trigger] files@[i]).0@))
                && files@.len() > 0 && !self.authenticates(old(server).api_key@) ==> (
            r matches Err(e) && e is Authentication) && final(server).registry == old(
                server,
            ).registry && final(server).store == old(server).store,
            (forall|i: int| 0 <= i < files@.len() ==> supported_platform((#[trigger] files@[i]).0@))
                && files@.len() > 0 && self.authenticates(old(server).api_key@) && !(
            crate::strutil::valid_component(app_name@) && crate::strutil::valid_component(
                version@,
            )) ==> (r matches Err(e) && e matches VersionServerError::Api { status: s, .. } && s
                == 400) && final(server).registry == old(server).registry && final(server).store
                == old(server).store,
            (forall|i: int| 0 <= i < files@.len() ==> supported_platform((#[trigger] files@[i]).0@))
                && (files@.len() == 0 || (self.authenticates(old(server).api_key@)
                && crate::strutil::valid_component(app_name@) && crate::strutil::valid_component(
                version@,
            ))) ==> {
                &&& r matches Ok(u) && u.success && u.app_name@ == app_name@ && u.version@
                    == version@ && crate::strutil::views_of_strings(u.platforms@) == file_platforms(
                    files@,
                )
                &&& forall|i: int|
                    0 <= i < files@.len() ==> uploaded_file_ok(
                        *final(server),
                        app_name@,
                        version@,
                        #[trigger] files@[i],
                    )
                &&& upload_rows_frame(*old(server), *final(server), app_name@, version@, files@)
                &&& upload_objects_frame(*old(server), *final(server), app_name@, version@, files@)
            },
    {
        let nf = files.len();

        // Validate every platform before any request is issued; an
        // unsupported name never reaches the network.
        let mut vi: usize = 0;
        while vi < nf
            invariant
                0 <= vi <= nf,
                nf == files@.len(),
                *server == *old(server),
                old(server).wf(),
                forall|j: int| 0 <= j < vi ==> supported_platform((#[trigger] files@[j]).0@),
            decreases nf - vi,
        {
            if !is_supported_platform(files[vi].0.as_str()) {
                return Err(VersionServerError::UnsupportedPlatform(files[vi].0.clone()));
            }
            vi = vi + 1;
        }

        let auth = self.auth_header();
        let mut out_platforms: Vec<String> = Vec::new();
        let mut fi: usize = 0;
        proof {
            assert(files@.skip(0) =~= files@);
            assert(upload_rows_frame(*old(server), *server, app_name@, version@, files@));
            assert(upload_objects_frame(*old(server), *server, app_name@, version@, files@));
        }
        while fi < nf
            invariant
                0 <= fi <= nf,
                server.wf(),
                server.api_key == old(server).api_key,
                nf == files@.len(),
                forall|j: int| 0 <= j < nf ==> supported_platform((#[trigger] files@[j]).0@),
                forall|i: int, j: int|
                    0 <= i < j < files@.len() ==> (#[trigger] files@[i]).0@ != (
                    #[trigger] files@[j]).0@,
                forall|i: int|
                    0 <= i < files@.len() ==> chunks_spec(
                        (#[trigger] files@[i]).1@,
                        CHUNK_SIZE as int,
                    ).len() <= 65535,
                forall|secret: Seq<char>| auth_ok(auth, secret) <==> self.authenticates(secret),
                server.store.next_tag + upload_tags(files@.skip(fi as int), CHUNK_SIZE as int)
                    <= u64::MAX,
                server.registry.next_id + (nf - fi) <= i64::MAX,
                fi == 0 ==> server.registry == old(server).registry && server.store == old(
                    server,
                ).store,
                fi > 0 ==> self.authenticates(old(server).api_key@)
                    && crate::strutil::valid_component(app_name@)
                    && crate::strutil::valid_component(version@),
                forall|j: int|
                    0 <= j < fi ==> uploaded_file_ok(
                        *server,
                        app_name@,
                        version@,
                        #[trigger] files@[j],
                    ),
                upload_rows_frame(*old(server), *server, app_name@, version@, files@),
                upload_objects_frame(*old(server), *server, app_name@, version@, files@),
                out_platforms@.len() == fi,
                forall|j: int| 0 <= j < fi ==> (#[trigger] out_platforms@[j])@ == files@[j].0@,
            decreases nf - fi,
        {
            let platform = &files[fi].0;
            let data = &files[fi].1;
            let ghost p = platform@;
            let ghost key_spec = crate::keys::artifact_key_spec(app_name@, version@, p);
            proof {
                assert(files@.skip(fi as int).drop_first() =~= files@.skip(fi as int + 1));
                assert(files@.skip(fi as int)[0] == files@[fi as int]);
                lemma_upload_tags_nonneg(files@.skip(fi as int + 1), CHUNK_SIZE as int);
                crate::platform::lemma_supported_platform_valid(p);
            }

            // Compute the checksum of the bytes we are about to send.
            let sha = sha256_hex(data.as_slice());

            // Create the multipart session.
            let ghost srv0 = *server;
            let cresp = server.handle_mpu_create(&auth, app_name, version, platform.as_str());
            if cresp.status == 401 {
                proof {
                    if fi > 0 {
                        assert(false);
                    }
                }
                return Err(VersionServerError::Authentication);
            }
            if cresp.status == 400 {
                proof {
                    if fi > 0 {
                        assert(false);
                    }
                }
                return Err(error_of(&cresp));
            }
            let (key, upload_id) = match cresp.body {
                ApiBody::MpuCreated(c) => (c.key, c.upload_id),
                _ => {
                    proof {
                        assert(false);
                    }
                    return Err(error_of(&cresp));
                },
            };
            proof {
                assert(auth_ok(auth, srv0.api_key@));
                assert(crate::server::valid_triple(app_name@, version@, p));
                assert(crate::server::mpu_created(srv0, *server, app_name@, version@, p));
                crate::store::lemma_session_index(
                    server.store,
                    key@,
                    upload_id@,
                    srv0.store.sessions@.len() as int,
                );
                assert(crate::store::session_parts(server.store, key@, upload_id@).len() == 0);
                assert forall|m: u16|
                    !crate::store::has_part(
                        crate::store::session_parts(server.store, key@, upload_id@),
                        m,
                    ) by {}
            }

            // Send the bytes up in bounded chunks, in increasing part
            // number order without gaps.
            let chunks = chunk_bytes(data, CHUNK_SIZE);
            let nchunks = chunks.len();
            let ghost cs = views_of_chunks(chunks@);
            let ghost srv1 = *server;
            let mut parts: Vec<MultipartPartResponse> = Vec::new();
            let mut ci: usize = 0;
            proof {
                assert(cs == chunks_spec(data@, CHUNK_SIZE as int));
                assert(cs.len() <= 65535);
            }
            while ci < nchunks
                invariant
                    server.wf(),
                    server.api_key == srv1.api_key,
                    server.registry == srv1.registry,
                    server.store.objects@ == srv1.store.objects@,
                    p == platform@,
                    0 <= fi < nf,
                    nf == files@.len(),
                    0 <= ci <= nchunks,
                    nchunks == chunks@.len(),
                    nchunks == cs.len(),
                    cs.len() <= 65535,
                    cs == views_of_chunks(chunks@),
                    key@ == crate::keys::artifact_key_spec(app_name@, version@, p),
                    forall|secret: Seq<char>| auth_ok(auth, secret) <==> self.authenticates(
                        secret,
                    ),
                    self.authenticates(srv1.api_key@),
                    crate::store::has_session(server.store.sessions@, key@, upload_id@),
                    crate::store::session_parts(server.store, key@, upload_id@).len() == ci,
                    forall|m: u16|
                        crate::store::has_part(
                            crate::store::session_parts(server.store, key@, upload_id@),
                            m,
                        ) <==> 1 <= m as int <= ci as int,
                    forall|m: u16|
                        1 <= m as int <= ci ==> #[trigger] crate::store::part_data(
                            crate::store::session_parts(server.store, key@, upload_id@),
                            m,
                        ) == cs[m as int - 1],
                    forall|m: u16|
                        1 <= m as int <= ci ==> #[trigger] crate::store::part_etag(
                            crate::store::session_parts(server.store, key@, upload_id@),
                            m,
                        ) == parts@[m as int - 1].etag@,
                    parts@.len() == ci,
                    forall|j: int|
                        0 <= j < ci ==> (#[trigger] parts@[j]).part_number as int == j + 1,
                    server.store.next_tag + (nchunks - ci) + 1 + upload_tags(
                        files@.skip(fi as int + 1),
                        CHUNK_SIZE as int,
                    ) <= u64::MAX,
                decreases nchunks - ci,
            {
                let chunk = vstd::slice::slice_to_vec(chunks[ci].as_slice());
                let ghost pre = *server;
                proof {
                    lemma_upload_tags_nonneg(files@.skip(fi as int + 1), CHUNK_SIZE as int);
                    assert(p == platform@);
                    assert(auth_ok(auth, server.api_key@));
                    assert(crate::store::has_session(
                        server.store.sessions@,
                        crate::keys::artifact_key_spec(app_name@, version@, p),
                        upload_id@,
                    ));
                    assert(chunk@ == cs[ci as int]);
                }
                let presp = server.handle_mpu_upload_part(
                    &auth,
                    app_name,
                    version,
                    platform.as_str(),
                    upload_id.as_str(),
                    (ci + 1) as u16,
                    chunk,
                );
                let part = match presp.body {
                    ApiBody::PartUploaded(pr) => pr,
                    _ => {
                        proof {
                            assert(false);
                        }
                        return Err(error_of(&presp));
                    },
                };
                let ghost parts_pre = parts@;
                let ghost part_snap = part;
                parts.push(part);
                proof {
                    let si_pre = crate::store::session_index(pre.store.sessions@, key@, upload_id@);
                    let sp_pre = crate::store::session_parts(pre.store, key@, upload_id@);
                    assert(crate::store::upload_part_post(
                        pre.store,
                        server.store,
                        key@,
                        upload_id@,
                        (ci + 1) as u16,
                        cs[ci as int],
                    ));
                    crate::store::lemma_session_index(server.store, key@, upload_id@, si_pre);
                    let sp = crate::store::session_parts(server.store, key@, upload_id@);
                    assert(sp == server.store.sessions@[si_pre].parts@);
                    assert(!crate::store::has_part(sp_pre, (ci + 1) as u16));
                    assert(sp.len() == ci + 1);
                    assert(parts@ == parts_pre.push(part_snap));
                    assert(part_snap.etag@ == crate::store::etag_of(pre.store.next_tag));
                    assert forall|m: u16| crate::store::has_part(sp, m) <==> 1 <= m as int <= ci
                        + 1 by {
                        if m as int != ci + 1 {
                            assert(crate::store::has_part(sp, m) <==> crate::store::has_part(
                                sp_pre,
                                m,
                            ));
                        }
                    }
                    assert forall|m: u16| 1 <= m as int <= ci + 1 implies #[trigger] crate::store::part_data(
                        sp,
                        m,
                    ) == cs[m as int - 1] by {
                        if m as int <= ci {
                            assert(crate::store::has_part(sp_pre, m));
                            assert(m != (ci + 1) as u16);
                            assert(crate::store::part_data(sp_pre, m) == cs[m as int - 1]);
                        } else {
                            assert(m == (ci + 1) as u16);
                        }
                    }
                    assert forall|m: u16| 1 <= m as int <= ci + 1 implies #[trigger] crate::store::part_etag(
                        sp,
                        m,
                    ) == parts@[m as int - 1].etag@ by {
                        if m as int <= ci {
                            assert(crate::store::has_part(sp_pre, m));
                            assert(m != (ci + 1) as u16);
                            assert(crate::store::part_data(sp_pre, m) == cs[m as int - 1]);
                            assert(crate::store::part_etag(sp_pre, m) == parts_pre[m as int
                                - 1].etag@);
                            assert(crate::store::part_data(sp, m) == crate::store::part_data(
                                sp_pre,
                                m,
                            ));
                            assert(crate::store::part_etag(sp, m) == crate::store::part_etag(
                                sp_pre,
                                m,
                            ));
                            assert(parts@[m as int - 1] == parts_pre[m as int - 1]);
                        } else {
                            assert(m == (ci + 1) as u16);
                            assert(crate::store::part_data(sp, m) == cs[ci as int]);
                            assert(crate::store::part_etag(sp, m) == crate::store::etag_of(
                                pre.store.next_tag,
                            ));
                            assert(parts@[m as int - 1] == part_snap);
                        }
                    }
                }
                ci = ci + 1;
            }

            // Ask the store to assemble the object.
            let ghost srv2 = *server;
            proof {
                lemma_upload_tags_nonneg(files@.skip(fi as int + 1), CHUNK_SIZE as int);
            }
            let comp = server.handle_mpu_complete(
                &auth,
                app_name,
                version,
                platform.as_str(),
                upload_id.as_str(),
                &parts,
            );
            proof {
                let si = crate::store::session_index(srv2.store.sessions@, key@, upload_id@);
                let stored = crate::store::session_parts(srv2.store, key@, upload_id@);
                assert(crate::store::parts_complete_ok(stored, parts@));
                lemma_assembled_eq_chunks(stored, cs, cs.len() as int);
                assert(cs.take(cs.len() as int) =~= cs);
                lemma_chunks_concat(data@, CHUNK_SIZE as int);
                assert(crate::store::object_data(server.store.objects@, key@) == data@);
            }
            match comp.body {
                ApiBody::MpuCompleted(_) => {},
                _ => {
                    proof {
                        assert(false);
                    }
                    return Err(error_of(&comp));
                },
            }

            // Only now register the completed upload, checksum included.
            let ghost srv3 = *server;
            let req = CompleteVersionRequest {
                version: String::from_str(version),
                platform: platform.clone(),
                sha256: sha,
            };
            let fresp = server.finish_now(&auth, app_name, &req);
            match fresp.body {
                ApiBody::Finished(_) => {},
                _ => {
                    proof {
                        assert(false);
                    }
                    return Err(error_of(&fresp));
                },
            }
            out_platforms.push(platform.clone());
            proof {
                assert(crate::server::finish_committed_rows(srv3, *server, app_name@, req));
                // This file is committed.
                assert(uploaded_file_ok(*server, app_name@, version@, files@[fi as int]));
                // Earlier files stay committed: their rows bind other
                // platforms, their blobs sit under other keys.
                assert forall|j: int| 0 <= j < fi implies uploaded_file_ok(
                    *server,
                    app_name@,
                    version@,
                    #[trigger] files@[j],
                ) by {
                    let pj = files@[j].0@;
                    let keyj = crate::keys::artifact_key_spec(app_name@, version@, pj);
                    crate::platform::lemma_supported_platform_valid(pj);
                    assert(pj != p);
                    if keyj == key_spec {
                        crate::keys::lemma_artifact_key_injective(
                            app_name@,
                            version@,
                            pj,
                            app_name@,
                            version@,
                            p,
                        );
                        assert(false);
                    }
                    assert(crate::store::has_object(server.store.objects@, keyj));
                    assert(crate::store::object_data(server.store.objects@, keyj)
                        == files@[j].1@);
                    crate::registry::lemma_upsert_preserves_other(
                        srv3.registry,
                        server.registry,
                        app_name@,
                        version@,
                        p,
                        app_name@,
                        version@,
                        pj,
                    );
                }
                // The frames: only this file's triple and key moved.
                assert(file_platforms(files@)[fi as int] == p);
                assert forall|a2: Seq<char>, v2: Seq<char>, p2: Seq<char>|
                    !(a2 == app_name@ && v2 == version@ && file_platforms(files@).contains(
                        p2,
                    )) implies {
                    &&& (#[trigger] has_row(server.registry.rows@, a2, v2, p2) <==> has_row(
                        old(server).registry.rows@,
                        a2,
                        v2,
                        p2,
                    ))
                    &&& (has_row(old(server).registry.rows@, a2, v2, p2)
                        ==> crate::registry::row_at(server.registry.rows@, a2, v2, p2)
                        == crate::registry::row_at(old(server).registry.rows@, a2, v2, p2))
                } by {
                    if a2 == app_name@ && v2 == version@ && p2 == p {
                        assert(file_platforms(files@).contains(p2));
                        assert(false);
                    }
                    crate::registry::lemma_upsert_preserves_other(
                        srv3.registry,
                        server.registry,
                        app_name@,
                        version@,
                        p,
                        a2,
                        v2,
                        p2,
                    );
                    assert(has_row(srv0.registry.rows@, a2, v2, p2) <==> has_row(
                        old(server).registry.rows@,
                        a2,
                        v2,
                        p2,
                    ));
                }
                assert forall|k: Seq<char>|
                    (forall|i: int|
                        0 <= i < files@.len() ==> k != crate::keys::artifact_key_spec(
                            app_name@,
                            version@,
                            (#[trigger] files@[i]).0@,
                        )) implies {
                    &&& (#[trigger] crate::store::has_object(server.store.objects@, k)
                        <==> crate::store::has_object(old(server).store.objects@, k))
                    &&& (crate::store::has_object(old(server).store.objects@, k)
                        ==> crate::store::object_data(server.store.objects@, k)
                        == crate::store::object_data(old(server).store.objects@, k))
                } by {
                    assert(k != crate::keys::artifact_key_spec(app_name@, version@, files@[
                        fi as int
                    ].0@));
                    assert(k != key_spec);
                    assert(crate::store::has_object(srv0.store.objects@, k)
                        <==> crate::store::has_object(old(server).store.objects@, k));
                }
                // The per-file budget was consumed exactly.
                assert(server.store.next_tag + upload_tags(
                    files@.skip(fi as int + 1),
                    CHUNK_SIZE as int,
                ) <= u64::MAX);
            }
            fi = fi + 1;
        }

        proof {
            assert(crate::strutil::views_of_strings(out_platforms@) =~= file_platforms(files@));
        }
        Ok(UploadResponse {
            success: true,
            message: String::from_str("Version uploaded successfully"),
            app_name: String::from_str(app_name),
            version: String::from_str(version),
            platforms: out_platforms,
        })
    }
}

} // verus!
