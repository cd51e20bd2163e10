//! The coordinator: the server-side API over the version registry and the
//! artifact store. It authenticates write operations with a bearer token,
//! drives the multipart protocol against the store, and commits a
//! registry row only once the corresponding blob is confirmed written, so
//! no row ever points at a missing blob — the invariant `wf` states.

use vstd::prelude::*;
use vstd::string::StrSliceExecFns;
use vstd::string::StringExecFns;

use crate::keys::{artifact_key, artifact_key_spec, lemma_artifact_key_injective};
use crate::listing::{list_for_app, listing_matches};
use crate::models::{
    CompleteVersionRequest, CompleteVersionResponse, DeleteResponse, ErrorResponse,
    LatestVersionResponse, MultipartCompleteResponse, MultipartCreateResponse,
    MultipartPartResponse, VersionResponse,
};
use crate::platform::{is_supported_platform, supported_platform};
use crate::registry::{
    has_row, has_version, latest_row, lemma_latest_row_props, lemma_platforms_of_props,
    lemma_rows_without_version_platform_sub, lemma_rows_without_version_props, platforms_of,
    row_matches, rows_without_version, Registry,
};
use crate::store::{
    has_object, has_session, object_data, parts_complete_ok, preserves_other_objects,
    session_index, ArtifactStore,
};
use crate::strutil::{is_valid_component, str_eq, str_starts_with, valid_component, views_of_strings};

verus! {

/// One request of the coordinator's surface, with the raw value of the
/// `Authorization` header where the operation mutates.
#[derive(Debug)]
pub enum ApiRequest {
    MpuCreate { auth: Option<String>, app: String, version: String, platform: String },
    MpuUploadPart {
        auth: Option<String>,
        app: String,
        version: String,
        platform: String,
        upload_id: String,
        part_number: u16,
        body: Vec<u8>,
    },
    MpuComplete {
        auth: Option<String>,
        app: String,
        version: String,
        platform: String,
        upload_id: String,
        parts: Vec<MultipartPartResponse>,
    },
    MpuAbort { auth: Option<String>, app: String, version: String, platform: String, upload_id: String },
    Finish { auth: Option<String>, app: String, body: CompleteVersionRequest },
    ListVersions { app: String },
    Latest { app: String, platform: String },
    Download { app: String, platform: String, version: String },
    Delete { auth: Option<String>, app: String, version: String },
}

/// A streamed artifact: its bytes plus the attachment filename the
/// download endpoint advertises.
#[derive(Debug)]
pub struct FileDownload {
    pub filename: String,
    pub data: Vec<u8>,
}

#[derive(Debug)]
pub enum ApiBody {
    Error(ErrorResponse),
    MpuCreated(MultipartCreateResponse),
    PartUploaded(MultipartPartResponse),
    MpuCompleted(MultipartCompleteResponse),
    Finished(CompleteVersionResponse),
    VersionList { app_name: String, versions: Vec<VersionResponse> },
    Latest(LatestVersionResponse),
    File(FileDownload),
    Deleted(DeleteResponse),
    Empty,
}

#[derive(Debug)]
pub struct ApiResponse {
    pub status: u16,
    pub body: ApiBody,
}

/// The header value a caller holding `secret` presents.
pub open spec fn bearer_of(secret: Seq<char>) -> Seq<char> {
    "Bearer "@ + secret
}

/// Authentication succeeds exactly when the header is present, carries
/// the `Bearer ` scheme, and names the configured secret.
pub open spec fn auth_ok(auth: Option<String>, secret: Seq<char>) -> bool {
    auth matches Some(h) && h@ == bearer_of(secret)
}

/// The `{app}-{platform}-{version}.zip` attachment filename of a
/// download.
pub open spec fn download_filename_spec(
    app: Seq<char>,
    platform: Seq<char>,
    version: Seq<char>,
) -> Seq<char> {
    app + seq!['-'] + platform + seq!['-'] + version + seq!['.', 'z', 'i', 'p']
}

fn download_filename(app: &str, platform: &str, version: &str) -> (r: String)
    ensures
        r@ == download_filename_spec(app@, platform@, version@),
{
    proof {
        reveal_strlit("-");
        reveal_strlit(".zip");
    }
    let mut s = String::from_str(app);
    s.append("-");
    s.append(platform);
    s.append("-");
    s.append(version);
    s.append(".zip");
    proof {
        assert(s@ =~= download_filename_spec(app@, platform@, version@));
    }
    s
}

fn err_response(status: u16, msg: &str) -> (r: ApiResponse)
    ensures
        r.status == status,
        r.body matches ApiBody::Error(e) && e.error@ == msg@,
{
    ApiResponse { status, body: ApiBody::Error(ErrorResponse { error: String::from_str(msg) }) }
}

/// All inputs that address an artifact are checked up front: non-empty,
/// slash-free app and version (so keys decode unambiguously) and a
/// supported platform. Anything else fails fast with a 400.
pub open spec fn valid_triple(app: Seq<char>, version: Seq<char>, platform: Seq<char>) -> bool {
    &&& valid_component(app)
    &&& valid_component(version)
    &&& supported_platform(platform)
    &&& valid_component(platform)
}

fn validate_triple(app: &str, version: &str, platform: &str) -> (r: Result<(), ApiResponse>)
    ensures
        r is Ok <==> valid_triple(app@, version@, platform@),
        r matches Err(resp) ==> resp.status == 400 && resp.body is Error,
{
    if !is_valid_component(app) {
        return Err(err_response(400, "Invalid app name"));
    }
    if !is_valid_component(version) {
        return Err(err_response(400, "Invalid version"));
    }
    if !is_supported_platform(platform) || !is_valid_component(platform) {
        proof {
            reveal_strlit("Unsupported platform: ");
        }
        let mut msg = String::from_str("Unsupported platform: ");
        msg.append(platform);
        return Err(ApiResponse {
            status: 400,
            body: ApiBody::Error(ErrorResponse { error: msg }),
        });
    }
    Ok(())
}

/// The coordinator's state: the registry and store it fronts, and the
/// configured write secret. `served` counts the requests handled, so a
/// contract can say that an operation issued none.
pub struct VersionServer {
    pub registry: Registry,
    pub store: ArtifactStore,
    pub api_key: String,
    pub served: Ghost<nat>,
}

impl VersionServer {
    /// The core consistency invariant: both halves are well-formed, and
    /// every registry row's blob is present in the store.
    pub open spec fn wf(&self) -> bool {
        &&& self.registry.wf()
        &&& self.store.wf()
        &&& forall|i: int|
            0 <= i < self.registry.rows@.len() ==> has_object(
                self.store.objects@,
                artifact_key_spec(
                    (#[trigger] self.registry.rows@[i]).app_name@,
                    self.registry.rows@[i].version@,
                    self.registry.rows@[i].platform@,
                ),
            )
    }

    pub fn new(api_key: String) -> (r: VersionServer)
        ensures
            r.wf(),
            r.registry.rows@.len() == 0,
            r.store.objects@.len() == 0,
            r.store.sessions@.len() == 0,
            r.api_key == api_key,
            r.served@ == 0,
    {
        VersionServer {
            registry: Registry::new(),
            store: ArtifactStore::new(),
            api_key,
            served: Ghost(0),
        }
    }

    /// Checks the `Authorization` header against the configured secret.
    fn authenticate(&self, auth: &Option<String>) -> (r: Result<(), ApiResponse>)
        ensures
            r is Ok <==> auth_ok(*auth, self.api_key@),
            r matches Err(resp) ==> {
                &&& resp.status == 401
                &&& resp.body matches ApiBody::Error(e) && (if auth is None {
                    e.error@ == "Authorization header required"@
                } else if !starts_with_bearer(auth->Some_0@) {
                    e.error@ == "Invalid authorization header format"@
                } else {
                    e.error@ == "Invalid API key"@
                })
            },
    {
        proof {
            reveal_strlit("Bearer ");
        }
        match auth {
            None => Err(err_response(401, "Authorization header required")),
            Some(h) => {
                if !str_starts_with(h.as_str(), "Bearer ") {
                    proof {
                        if h@ == bearer_of(self.api_key@) {
                            assert(h@.subrange(0, 7) =~= "Bearer "@);
                        }
                    }
                    Err(err_response(401, "Invalid authorization header format"))
                } else {
                    let n = h.as_str().unicode_len();
                    let token = h.as_str().substring_char(7, n);
                    if str_eq(token, self.api_key.as_str()) {
                        proof {
                            assert(h@ =~= bearer_of(self.api_key@));
                        }
                        Ok(())
                    } else {
                        proof {
                            if h@ == bearer_of(self.api_key@) {
                                assert(token@ =~= self.api_key@);
                            }
                        }
                        Err(err_response(401, "Invalid API key"))
                    }
                }
            },
        }
    }
}

/// The header begins with the `Bearer ` scheme.
pub open spec fn starts_with_bearer(h: Seq<char>) -> bool {
    crate::strutil::starts_with_spec(h, "Bearer "@)
}

/// The registry and store are exactly as they were.
pub open spec fn state_unchanged(pre: VersionServer, post: VersionServer) -> bool {
    post.registry == pre.registry && post.store == pre.store
}

/// What a successful session creation did to the server.
pub open spec fn mpu_created(
    pre: VersionServer,
    post: VersionServer,
    app: Seq<char>,
    version: Seq<char>,
    platform: Seq<char>,
) -> bool {
    let key = artifact_key_spec(app, version, platform);
    &&& post.registry == pre.registry
    &&& post.store.objects@ == pre.store.objects@
    &&& post.store.next_tag == pre.store.next_tag + 1
    &&& post.store.sessions@.len() == pre.store.sessions@.len() + 1
    &&& post.store.sessions@.drop_last() == pre.store.sessions@
    &&& post.store.sessions@.last().key@ == key
    &&& post.store.sessions@.last().upload_id@ == crate::store::upload_id_of(pre.store.next_tag)
    &&& post.store.sessions@.last().parts@.len() == 0
    &&& has_session(post.store.sessions@, key, crate::store::upload_id_of(pre.store.next_tag))
}

impl VersionServer {
    /// `mpu-create`: allocates the artifact key, opens a store session and
    /// returns both.
    pub fn handle_mpu_create(
        &mut self,
        auth: &Option<String>,
        app: &str,
        version: &str,
        platform: &str,
    ) -> (r: ApiResponse)
        requires
            old(self).wf(),
            old(self).store.next_tag < u64::MAX,
        ensures
            final(self).wf(),
            final(self).api_key == old(self).api_key,
            final(self).served@ == old(self).served@ + 1,
            final(self).store.next_tag <= old(self).store.next_tag + 1,
            final(self).registry == old(self).registry,
            !auth_ok(*auth, old(self).api_key@) ==> r.status == 401 && r.body is Error
                && state_unchanged(*old(self), *final(self)),
            auth_ok(*auth, old(self).api_key@) && !valid_triple(app@, version@, platform@)
                ==> r.status == 400 && r.body is Error && state_unchanged(*old(self), *final(self)),
            auth_ok(*auth, old(self).api_key@) && valid_triple(app@, version@, platform@) ==> {
                &&& r.status == 200
                &&& r.body matches ApiBody::MpuCreated(c) && c.key@ == artifact_key_spec(
                    app@,
                    version@,
                    platform@,
                ) && c.upload_id@ == crate::store::upload_id_of(old(self).store.next_tag)
                &&& mpu_created(*old(self), *final(self), app@, version@, platform@)
            },
    {
        if let Err(resp) = self.authenticate(auth) {
            proof {
                self.served@ = self.served@ + 1;
            }
            return resp;
        }
        if let Err(resp) = validate_triple(app, version, platform) {
            proof {
                self.served@ = self.served@ + 1;
            }
            return resp;
        }
        let key = artifact_key(app, version, platform);
        let upload_id = self.store.create_upload(key.as_str());
        proof {
            self.served@ = self.served@ + 1;
        }
        ApiResponse {
            status: 200,
            body: ApiBody::MpuCreated(MultipartCreateResponse { key, upload_id }),
        }
    }

    /// `mpu-uploadpart`: forwards one chunk to the store's session.
    pub fn handle_mpu_upload_part(
        &mut self,
        auth: &Option<String>,
        app: &str,
        version: &str,
        platform: &str,
        upload_id: &str,
        part_number: u16,
        body: Vec<u8>,
    ) -> (r: ApiResponse)
        requires
            old(self).wf(),
            old(self).store.next_tag < u64::MAX,
        ensures
            final(self).wf(),
            final(self).api_key == old(self).api_key,
            final(self).served@ == old(self).served@ + 1,
            final(self).store.next_tag <= old(self).store.next_tag + 1,
            final(self).registry == old(self).registry,
            !auth_ok(*auth, old(self).api_key@) ==> r.status == 401 && r.body is Error
                && state_unchanged(*old(self), *final(self)),
            auth_ok(*auth, old(self).api_key@) && !has_session(
                old(self).store.sessions@,
                artifact_key_spec(app@, version@, platform@),
                upload_id@,
            ) ==> r.status == 400 && r.body is Error && state_unchanged(*old(self), *final(self)),
            auth_ok(*auth, old(self).api_key@) && has_session(
                old(self).store.sessions@,
                artifact_key_spec(app@, version@, platform@),
                upload_id@,
            ) ==> {
                &&& r.status == 200
                &&& r.body matches ApiBody::PartUploaded(p) && p.part_number == part_number
                    && p.etag@ == crate::store::etag_of(old(self).store.next_tag)
                &&& crate::store::upload_part_post(
                    old(self).store,
                    final(self).store,
                    artifact_key_spec(app@, version@, platform@),
                    upload_id@,
                    part_number,
                    body@,
                )
            },
    {
        if let Err(resp) = self.authenticate(auth) {
            proof {
                self.served@ = self.served@ + 1;
            }
            return resp;
        }
        let key = artifact_key(app, version, platform);
        let outcome = self.store.upload_part(key.as_str(), upload_id, part_number, body);
        proof {
            self.served@ = self.served@ + 1;
        }
        match outcome {
            Some(etag) => ApiResponse {
                status: 200,
                body: ApiBody::PartUploaded(MultipartPartResponse { part_number, etag }),
            },
            None => err_response(400, "Unknown upload session"),
        }
    }

    /// `mpu-complete`: asks the store to assemble the object. The registry
    /// row is deliberately NOT written here; only the separate finish call
    /// commits it, once the blob is confirmed.
    pub fn handle_mpu_complete(
        &mut self,
        auth: &Option<String>,
        app: &str,
        version: &str,
        platform: &str,
        upload_id: &str,
        parts: &Vec<MultipartPartResponse>,
    ) -> (r: ApiResponse)
        requires
            old(self).wf(),
            old(self).store.next_tag < u64::MAX,
        ensures
            final(self).wf(),
            final(self).api_key == old(self).api_key,
            final(self).served@ == old(self).served@ + 1,
            final(self).store.next_tag <= old(self).store.next_tag + 1,
            final(self).registry == old(self).registry,
            !auth_ok(*auth, old(self).api_key@) ==> r.status == 401 && r.body is Error
                && state_unchanged(*old(self), *final(self)),
            auth_ok(*auth, old(self).api_key@) && !has_session(
                old(self).store.sessions@,
                artifact_key_spec(app@, version@, platform@),
                upload_id@,
            ) ==> r.status == 500 && r.body is Error && state_unchanged(*old(self), *final(self)),
            auth_ok(*auth, old(self).api_key@) && has_session(
                old(self).store.sessions@,
                artifact_key_spec(app@, version@, platform@),
                upload_id@,
            ) ==> {
                let key = artifact_key_spec(app@, version@, platform@);
                let i = session_index(old(self).store.sessions@, key, upload_id@);
                let stored = old(self).store.sessions@[i].parts@;
                if parts_complete_ok(stored, parts@) {
                    &&& r.status == 200
                    &&& r.body matches ApiBody::MpuCompleted(c) && c.success && c.etag@
                        == crate::store::etag_of(old(self).store.next_tag)
                    &&& has_object(final(self).store.objects@, key)
                    &&& object_data(final(self).store.objects@, key)
                        == crate::store::assembled_data(stored, stored.len() as int)
                    &&& preserves_other_objects(
                        old(self).store.objects@,
                        final(self).store.objects@,
                        key,
                    )
                    &&& final(self).store.sessions@ == old(self).store.sessions@.remove(i)
                } else {
                    r.status == 500 && r.body is Error && state_unchanged(*old(self), *final(self))
                }
            },
    {
        if let Err(resp) = self.authenticate(auth) {
            proof {
                self.served@ = self.served@ + 1;
            }
            return resp;
        }
        let key = artifact_key(app, version, platform);
        let outcome = self.store.complete_upload(key.as_str(), upload_id, parts);
        proof {
            self.served@ = self.served@ + 1;
        }
        match outcome {
            Some(etag) => ApiResponse {
                status: 200,
                body: ApiBody::MpuCompleted(MultipartCompleteResponse { success: true, etag }),
            },
            None => err_response(500, "Failed to complete multipart upload"),
        }
    }

    /// `mpu-abort`: releases the session's storage; no object is produced.
    pub fn handle_mpu_abort(
        &mut self,
        auth: &Option<String>,
        app: &str,
        version: &str,
        platform: &str,
        upload_id: &str,
    ) -> (r: ApiResponse)
        requires
            old(self).wf(),
        ensures
            final(self).wf(),
            final(self).api_key == old(self).api_key,
            final(self).served@ == old(self).served@ + 1,
            final(self).store.next_tag == old(self).store.next_tag,
            final(self).registry == old(self).registry,
            final(self).store.objects@ == old(self).store.objects@,
            !auth_ok(*auth, old(self).api_key@) ==> r.status == 401 && r.body is Error
                && state_unchanged(*old(self), *final(self)),
            auth_ok(*auth, old(self).api_key@) && !has_session(
                old(self).store.sessions@,
                artifact_key_spec(app@, version@, platform@),
                upload_id@,
            ) ==> r.status == 400 && r.body is Error && state_unchanged(*old(self), *final(self)),
            auth_ok(*auth, old(self).api_key@) && has_session(
                old(self).store.sessions@,
                artifact_key_spec(app@, version@, platform@),
                upload_id@,
            ) ==> {
                &&& r.status == 204
                &&& r.body is Empty
                &&& final(self).store.sessions@ == old(self).store.sessions@.remove(
                    session_index(
                        old(self).store.sessions@,
                        artifact_key_spec(app@, version@, platform@),
                        upload_id@,
                    ),
                )
                &&& !has_session(
                    final(self).store.sessions@,
                    artifact_key_spec(app@, version@, platform@),
                    upload_id@,
                )
            },
    {
        if let Err(resp) = self.authenticate(auth) {
            proof {
                self.served@ = self.served@ + 1;
            }
            return resp;
        }
        let key = artifact_key(app, version, platform);
        let aborted = self.store.abort_upload(key.as_str(), upload_id);
        proof {
            self.served@ = self.served@ + 1;
        }
        if aborted {
            ApiResponse { status: 204, body: ApiBody::Empty }
        } else {
            err_response(400, "Unknown upload session")
        }
    }

    /// `GET /versions`: the aggregated per-version listing; never
    /// authenticated, never failing.
    pub fn handle_list(&mut self, app: &str) -> (r: ApiResponse)
        requires
            old(self).wf(),
        ensures
            final(self).wf(),
            final(self).api_key == old(self).api_key,
            final(self).served@ == old(self).served@ + 1,
            state_unchanged(*old(self), *final(self)),
            r.status == 200,
            r.body matches ApiBody::VersionList { app_name, versions } && app_name@ == app@
                && listing_matches(versions@, old(self).registry.rows@, app@),
    {
        let versions = list_for_app(&self.registry, app);
        proof {
            self.served@ = self.served@ + 1;
        }
        ApiResponse {
            status: 200,
            body: ApiBody::VersionList { app_name: String::from_str(app), versions },
        }
    }

    /// `GET /latest/{platform}`: the newest registry row carrying the
    /// platform; 404 when no row does, even if other platforms have
    /// versions.
    pub fn handle_latest(&mut self, app: &str, platform: &str) -> (r: ApiResponse)
        requires
            old(self).wf(),
        ensures
            final(self).wf(),
            final(self).api_key == old(self).api_key,
            final(self).served@ == old(self).served@ + 1,
            state_unchanged(*old(self), *final(self)),
            !supported_platform(platform@) ==> r.status == 400 && (
            r.body matches ApiBody::Error(e) && e.error@ == "Unsupported platform: "@ + platform@),
            (supported_platform(platform@) && latest_row(
                old(self).registry.rows@,
                app@,
                platform@,
            ) is None) ==> r.status == 404 && (r.body matches ApiBody::Error(e) && e.error@
                == "No versions found for platform"@),
            (supported_platform(platform@) && latest_row(
                old(self).registry.rows@,
                app@,
                platform@,
            ) is Some) ==> {
                let row = latest_row(old(self).registry.rows@, app@, platform@)->Some_0;
                &&& r.status == 200
                &&& r.body matches ApiBody::Latest(l) && l.app_name@ == app@ && l.platform@
                    == platform@ && l.version@ == row.version@ && l.timestamp@ == row.timestamp@
                    && l.sha256@ == row.sha256@
            },
    {
        proof {
            self.served@ = self.served@ + 1;
        }
        if !is_supported_platform(platform) {
            proof {
                reveal_strlit("Unsupported platform: ");
            }
            let mut msg = String::from_str("Unsupported platform: ");
            msg.append(platform);
            return ApiResponse { status: 400, body: ApiBody::Error(ErrorResponse { error: msg }) };
        }
        match self.registry.latest_for_platform(app, platform) {
            Some(row) => ApiResponse {
                status: 200,
                body: ApiBody::Latest(LatestVersionResponse {
                    app_name: String::from_str(app),
                    platform: String::from_str(platform),
                    version: row.version.clone(),
                    timestamp: row.timestamp.clone(),
                    sha256: row.sha256.clone(),
                }),
            },
            None => err_response(404, "No versions found for platform"),
        }
    }

    /// `upload/finish`: only now is the registry row committed, and only
    /// after the blob is confirmed written — never the reverse. The
    /// checksum stored is the one the client computed of the bytes it
    /// actually sent.
    pub fn handle_finish(
        &mut self,
        auth: &Option<String>,
        app: &str,
        body: &CompleteVersionRequest,
        now: &str,
    ) -> (r: ApiResponse)
        requires
            old(self).wf(),
            old(self).registry.next_id < i64::MAX,
        ensures
            final(self).wf(),
            final(self).api_key == old(self).api_key,
            final(self).served@ == old(self).served@ + 1,
            final(self).store == old(self).store,
            final(self).registry.next_id <= old(self).registry.next_id + 1,
            !auth_ok(*auth, old(self).api_key@) ==> r.status == 401 && r.body is Error
                && state_unchanged(*old(self), *final(self)),
            (auth_ok(*auth, old(self).api_key@) && !valid_triple(
                app@,
                body.version@,
                body.platform@,
            )) ==> r.status == 400 && r.body is Error && state_unchanged(*old(self), *final(self)),
            (auth_ok(*auth, old(self).api_key@) && valid_triple(app@, body.version@, body.platform@)
                && !has_object(
                old(self).store.objects@,
                artifact_key_spec(app@, body.version@, body.platform@),
            )) ==> r.status == 404 && (r.body matches ApiBody::Error(e) && e.error@
                == "Artifact not found"@) && state_unchanged(*old(self), *final(self)),
            (auth_ok(*auth, old(self).api_key@) && valid_triple(app@, body.version@, body.platform@)
                && has_object(
                old(self).store.objects@,
                artifact_key_spec(app@, body.version@, body.platform@),
            )) ==> {
                &&& r.status == 200
                &&& r.body matches ApiBody::Finished(c) && c.success && c.app_name@ == app@
                    && c.version@ == body.version@ && c.platform@ == body.platform@ && c.message@
                    == "Version upload completed successfully"@
                &&& finish_committed(*old(self), *final(self), app@, *body, now@)
            },
    {
        if let Err(resp) = self.authenticate(auth) {
            proof {
                self.served@ = self.served@ + 1;
            }
            return resp;
        }
        if let Err(resp) = validate_triple(app, body.version.as_str(), body.platform.as_str()) {
            proof {
                self.served@ = self.served@ + 1;
            }
            return resp;
        }
        let key = artifact_key(app, body.version.as_str(), body.platform.as_str());
        if self.store.get(key.as_str()).is_none() {
            proof {
                self.served@ = self.served@ + 1;
            }
            return err_response(404, "Artifact not found");
        }
        let ghost old_rows = self.registry.rows@;
        self.registry.upsert(
            app,
            body.version.as_str(),
            body.platform.as_str(),
            now,
            body.sha256.as_str(),
        );
        proof {
            self.served@ = self.served@ + 1;
            // Every surviving row keeps its blob: the store is untouched,
            // the new row's blob was just confirmed, and the others were
            // rows before.
            crate::registry::lemma_rows_without_version_platform_sub(
                old_rows,
                app@,
                body.version@,
                body.platform@,
                self.registry.rows@.drop_last(),
            );
            assert forall|i: int| 0 <= i < self.registry.rows@.len() implies has_object(
                self.store.objects@,
                artifact_key_spec(
                    (#[trigger] self.registry.rows@[i]).app_name@,
                    self.registry.rows@[i].version@,
                    self.registry.rows@[i].platform@,
                ),
            ) by {
                if i < self.registry.rows@.len() - 1 {
                    assert(self.registry.rows@.drop_last()[i] == self.registry.rows@[i]);
                    let j = choose|j: int|
                        0 <= j < old_rows.len() && #[trigger] self.registry.rows@.drop_last()[i]
                            == #[trigger] old_rows[j];
                    assert(has_object(
                        self.store.objects@,
                        artifact_key_spec(
                            old_rows[j].app_name@,
                            old_rows[j].version@,
                            old_rows[j].platform@,
                        ),
                    ));
                } else {
                    assert(row_matches(
                        self.registry.rows@[i],
                        app@,
                        body.version@,
                        body.platform@,
                    ));
                }
            }
        }
        ApiResponse {
            status: 200,
            body: ApiBody::Finished(CompleteVersionResponse {
                success: true,
                message: String::from_str("Version upload completed successfully"),
                app_name: String::from_str(app),
                version: body.version.clone(),
                platform: body.platform.clone(),
            }),
        }
    }

    /// `GET /download/{platform}/{version|latest}`: resolves the version,
    /// confirms the registry row for the exact platform, and hands the
    /// blob back with its attachment filename. Under `wf`, a row's blob is
    /// always present.
    pub fn handle_download(&mut self, app: &str, platform: &str, version: &str) -> (r: ApiResponse)
        requires
            old(self).wf(),
        ensures
            final(self).wf(),
            final(self).api_key == old(self).api_key,
            final(self).served@ == old(self).served@ + 1,
            state_unchanged(*old(self), *final(self)),
            !supported_platform(platform@) ==> r.status == 400 && (
            r.body matches ApiBody::Error(e) && e.error@ == "Unsupported platform: "@ + platform@),
            (supported_platform(platform@) && version@ != "latest"@ && !has_row(
                old(self).registry.rows@,
                app@,
                version@,
                platform@,
            )) ==> r.status == 404 && (r.body matches ApiBody::Error(e) && e.error@
                == "Version not found for platform"@),
            (supported_platform(platform@) && version@ != "latest"@ && has_row(
                old(self).registry.rows@,
                app@,
                version@,
                platform@,
            )) ==> {
                &&& r.status == 200
                &&& r.body matches ApiBody::File(f) && f.filename@ == download_filename_spec(
                    app@,
                    platform@,
                    version@,
                ) && f.data@ == object_data(
                    old(self).store.objects@,
                    artifact_key_spec(app@, version@, platform@),
                )
            },
            (supported_platform(platform@) && version@ == "latest"@ && latest_row(
                old(self).registry.rows@,
                app@,
                platform@,
            ) is None) ==> r.status == 404 && (r.body matches ApiBody::Error(e) && e.error@
                == "Version not found for platform"@),
            (supported_platform(platform@) && version@ == "latest"@ && latest_row(
                old(self).registry.rows@,
                app@,
                platform@,
            ) is Some) ==> {
                let row = latest_row(old(self).registry.rows@, app@, platform@)->Some_0;
                &&& r.status == 200
                &&& r.body matches ApiBody::File(f) && f.filename@ == download_filename_spec(
                    app@,
                    platform@,
                    row.version@,
                ) && f.data@ == object_data(
                    old(self).store.objects@,
                    artifact_key_spec(app@, row.version@, platform@),
                )
            },
    {
        proof {
            self.served@ = self.served@ + 1;
        }
        if !is_supported_platform(platform) {
            proof {
                reveal_strlit("Unsupported platform: ");
            }
            let mut msg = String::from_str("Unsupported platform: ");
            msg.append(platform);
            return ApiResponse { status: 400, body: ApiBody::Error(ErrorResponse { error: msg }) };
        }
        // Resolve the requested version, directly or via the registry's
        // latest-lookup when "latest" is asked for.
        let resolved: String = if str_eq(version, "latest") {
            match self.registry.latest_for_platform(app, platform) {
                Some(row) => {
                    proof {
                        lemma_latest_row_props(self.registry.rows@, app@, platform@);
                        let j = choose|j: int|
                            0 <= j < self.registry.rows@.len() && #[trigger] self.registry.rows@[j]
                                == latest_row(self.registry.rows@, app@, platform@)->Some_0;
                        crate::registry::lemma_row_index(
                            self.registry,
                            row.app_name@,
                            row.version@,
                            row.platform@,
                            j,
                        );
                    }
                    row.version.clone()
                },
                None => {
                    return err_response(404, "Version not found for platform");
                },
            }
        } else {
            String::from_str(version)
        };
        // Confirm a registry row exists for the exact platform.
        let row_found = self.registry.lookup(app, resolved.as_str(), platform).is_some();
        if !row_found {
            return err_response(404, "Version not found for platform");
        }
        let key = artifact_key(app, resolved.as_str(), platform);
        proof {
            let i = crate::registry::row_index(self.registry.rows@, app@, resolved@, platform@);
            assert(has_object(self.store.objects@, key@));
        }
        match self.store.get(key.as_str()) {
            Some(data) => {
                let bytes = vstd::slice::slice_to_vec(data.as_slice());
                let filename = download_filename(app, platform, resolved.as_str());
                ApiResponse { status: 200, body: ApiBody::File(FileDownload { filename, data: bytes }) }
            },
            None => err_response(404, "File not found"),
        }
    }

    /// `DELETE /delete/{version}`: deletes every blob of the version, and
    /// only then its registry rows, so a failure can strand at worst an
    /// orphaned blob, never a dangling row.
    pub fn handle_delete(&mut self, auth: &Option<String>, app: &str, version: &str) -> (r:
        ApiResponse)
        requires
            old(self).wf(),
        ensures
            final(self).wf(),
            final(self).api_key == old(self).api_key,
            final(self).served@ == old(self).served@ + 1,
            final(self).store.sessions@ == old(self).store.sessions@,
            final(self).store.next_tag == old(self).store.next_tag,
            final(self).registry.next_id == old(self).registry.next_id,
            !auth_ok(*auth, old(self).api_key@) ==> r.status == 401 && r.body is Error
                && state_unchanged(*old(self), *final(self)),
            (auth_ok(*auth, old(self).api_key@) && !has_version(
                old(self).registry.rows@,
                app@,
                version@,
            )) ==> r.status == 404 && (r.body matches ApiBody::Error(e) && e.error@
                == "Version not found"@) && state_unchanged(*old(self), *final(self)),
            (auth_ok(*auth, old(self).api_key@) && has_version(
                old(self).registry.rows@,
                app@,
                version@,
            )) ==> {
                &&& r.status == 200
                &&& r.body matches ApiBody::Deleted(d) && d.success && d.app_name@ == app@
                    && d.version@ == version@ && d.message@ == "Version deleted successfully"@
                &&& delete_committed(*old(self), *final(self), app@, version@)
            },
    {
        if let Err(resp) = self.authenticate(auth) {
            proof {
                self.served@ = self.served@ + 1;
            }
            return resp;
        }
        proof {
            self.served@ = self.served@ + 1;
        }
        let ghost old_rows = self.registry.rows@;
        let ghost old_store = self.store;
        // Look up every platform that has a row for this version.
        let platforms = self.registry.platforms_for(app, version);
        proof {
            lemma_platforms_of_props(
                old_rows,
                app@,
                version@,
                platforms_of(old_rows, app@, version@),
            );
        }
        if platforms.len() == 0 {
            proof {
                if has_version(old_rows, app@, version@) {
                    let j = choose|j: int|
                        0 <= j < old_rows.len() && (#[trigger] old_rows[j]).app_name@ == app@
                            && old_rows[j].version@ == version@;
                    assert(row_matches(old_rows[j], app@, version@, old_rows[j].platform@));
                    assert(has_row(old_rows, app@, version@, old_rows[j].platform@));
                    assert(false);
                }
            }
            return err_response(404, "Version not found");
        }
        proof {
            let p0 = platforms_of(old_rows, app@, version@)[0];
            assert(views_of_strings(platforms@)[0] == p0);
            assert(has_row(old_rows, app@, version@, p0));
            let j = crate::registry::row_index(old_rows, app@, version@, p0);
            assert(has_version(old_rows, app@, version@));
        }
        let ghost po = views_of_strings(platforms@);

        // Delete every blob first; rows must never outlive their blobs.
        let n = platforms.len();
        let mut i: usize = 0;
        while i < n
            invariant
                self.registry == old(self).registry,
                self.registry.rows@ == old_rows,
                self.registry.wf(),
                self.api_key == old(self).api_key,
                self.served@ == old(self).served@ + 1,
                self.store.wf(),
                self.store.sessions@ == old_store.sessions@,
                self.store.next_tag == old_store.next_tag,
                0 <= i <= n,
                n == platforms@.len(),
                po == views_of_strings(platforms@),
                po == platforms_of(old_rows, app@, version@),
                forall|j: int|
                    0 <= j < i ==> !has_object(
                        self.store.objects@,
                        artifact_key_spec(app@, version@, #[trigger] po[j]),
                    ),
                forall|k: Seq<char>|
                    (forall|j: int| 0 <= j < i ==> k != artifact_key_spec(app@, version@, #[trigger] po[j]))
                        ==> ((#[trigger] has_object(self.store.objects@, k) <==> has_object(
                        old_store.objects@,
                        k,
                    )) && (has_object(old_store.objects@, k) ==> object_data(
                        self.store.objects@,
                        k,
                    ) == object_data(old_store.objects@, k))),
            decreases n - i,
        {
            let ghost pre = self.store;
            let key = artifact_key(app, version, platforms[i].as_str());
            proof {
                assert(po[i as int] == platforms@[i as int]@);
            }
            self.store.delete(key.as_str());
            proof {
                assert forall|j: int| 0 <= j < i + 1 implies !has_object(
                    self.store.objects@,
                    artifact_key_spec(app@, version@, #[trigger] po[j]),
                ) by {
                    let kj = artifact_key_spec(app@, version@, po[j]);
                    if kj == key@ {
                    } else {
                        assert(!has_object(pre.objects@, kj));
                    }
                }
                assert forall|k: Seq<char>|
                    (forall|j: int| 0 <= j < i + 1 ==> k != artifact_key_spec(app@, version@, #[trigger] po[j]))
                        implies ((#[trigger] has_object(self.store.objects@, k) <==> has_object(
                    old_store.objects@,
                    k,
                )) && (has_object(old_store.objects@, k) ==> object_data(
                    self.store.objects@,
                    k,
                ) == object_data(old_store.objects@, k))) by {
                    assert(k != artifact_key_spec(app@, version@, po[i as int]));
                    assert(forall|j: int|
                        0 <= j < i ==> k != artifact_key_spec(app@, version@, #[trigger] po[j]));
                }
            }
            i = i + 1;
        }

        // Only now remove the rows.
        self.registry.remove_version(app, version);
        proof {
            lemma_rows_without_version_props(old_rows, app@, version@, self.registry.rows@);
            // Surviving rows keep their blobs: their keys differ from every
            // deleted key, by injectivity of the addressing scheme.
            let va = choose|j: int|
                0 <= j < old_rows.len() && (#[trigger] old_rows[j]).app_name@ == app@
                    && old_rows[j].version@ == version@;
            assert(valid_component(app@) && valid_component(version@));
            assert forall|idx: int| 0 <= idx < self.registry.rows@.len() implies has_object(
                self.store.objects@,
                artifact_key_spec(
                    (#[trigger] self.registry.rows@[idx]).app_name@,
                    self.registry.rows@[idx].version@,
                    self.registry.rows@[idx].platform@,
                ),
            ) by {
                let r = self.registry.rows@[idx];
                let j = choose|j: int|
                    0 <= j < old_rows.len() && #[trigger] self.registry.rows@[idx]
                        == #[trigger] old_rows[j];
                let rk = artifact_key_spec(r.app_name@, r.version@, r.platform@);
                assert(has_object(old_store.objects@, rk));
                assert forall|jj: int| 0 <= jj < n implies rk != artifact_key_spec(
                    app@,
                    version@,
                    #[trigger] po[jj],
                ) by {
                    if rk == artifact_key_spec(app@, version@, po[jj]) {
                        assert(has_row(old_rows, app@, version@, po[jj]));
                        let rj = crate::registry::row_index(old_rows, app@, version@, po[jj]);
                        assert(valid_component(po[jj]));
                        lemma_artifact_key_injective(
                            r.app_name@,
                            r.version@,
                            r.platform@,
                            app@,
                            version@,
                            po[jj],
                        );
                        assert(false);
                    }
                }
            }
            assert forall|p: Seq<char>|
                #[trigger] has_row(old_rows, app@, version@, p) implies !has_object(
                self.store.objects@,
                artifact_key_spec(app@, version@, p),
            ) by {
                let ii = choose|ii: int| 0 <= ii < po.len() && po[ii] == p;
            }
            assert forall|k: Seq<char>|
                (forall|p: Seq<char>|
                    has_row(old_rows, app@, version@, p) ==> k != artifact_key_spec(
                        app@,
                        version@,
                        p,
                    )) implies ((#[trigger] has_object(self.store.objects@, k) <==> has_object(
                old_store.objects@,
                k,
            )) && (has_object(old_store.objects@, k) ==> object_data(self.store.objects@, k)
                == object_data(old_store.objects@, k))) by {
                assert forall|j: int| 0 <= j < n implies k != artifact_key_spec(
                    app@,
                    version@,
                    #[trigger] po[j],
                ) by {
                    assert(has_row(old_rows, app@, version@, po[j]));
                }
            }
            lemma_delete_committed_intro(*old(self), *self, app@, version@);
        }
        ApiResponse {
            status: 200,
            body: ApiBody::Deleted(DeleteResponse {
                success: true,
                message: String::from_str("Version deleted successfully"),
                app_name: String::from_str(app),
                version: String::from_str(version),
            }),
        }
    }
}

/// What routing one request does: for each request shape, exactly the
/// matching handler's outcome — status, body and state change. A finish
/// commit is stated up to its timestamp, which the clock supplies.
pub open spec fn routed(req: ApiRequest, pre: VersionServer, post: VersionServer, r: ApiResponse) -> bool {
    match req {
        ApiRequest::MpuCreate { auth, app, version, platform } => {
            &&& post.registry == pre.registry
            &&& !auth_ok(auth, pre.api_key@) ==> r.status == 401 && r.body is Error
                && state_unchanged(pre, post)
            &&& (auth_ok(auth, pre.api_key@) && !valid_triple(app@, version@, platform@))
                ==> r.status == 400 && r.body is Error && state_unchanged(pre, post)
            &&& (auth_ok(auth, pre.api_key@) && valid_triple(app@, version@, platform@)) ==> {
                &&& r.status == 200
                &&& r.body matches ApiBody::MpuCreated(c) && c.key@ == artifact_key_spec(
                    app@,
                    version@,
                    platform@,
                ) && c.upload_id@ == crate::store::upload_id_of(pre.store.next_tag)
                &&& mpu_created(pre, post, app@, version@, platform@)
            }
        },
        ApiRequest::MpuUploadPart { auth, app, version, platform, upload_id, part_number, body } => {
            let key = artifact_key_spec(app@, version@, platform@);
            &&& post.registry == pre.registry
            &&& !auth_ok(auth, pre.api_key@) ==> r.status == 401 && r.body is Error
                && state_unchanged(pre, post)
            &&& (auth_ok(auth, pre.api_key@) && !has_session(pre.store.sessions@, key, upload_id@))
                ==> r.status == 400 && r.body is Error && state_unchanged(pre, post)
            &&& (auth_ok(auth, pre.api_key@) && has_session(pre.store.sessions@, key, upload_id@))
                ==> {
                &&& r.status == 200
                &&& r.body matches ApiBody::PartUploaded(p) && p.part_number == part_number
                    && p.etag@ == crate::store::etag_of(pre.store.next_tag)
                &&& crate::store::upload_part_post(
                    pre.store,
                    post.store,
                    key,
                    upload_id@,
                    part_number,
                    body@,
                )
            }
        },
        ApiRequest::MpuComplete { auth, app, version, platform, upload_id, parts } => {
            let key = artifact_key_spec(app@, version@, platform@);
            &&& post.registry == pre.registry
            &&& !auth_ok(auth, pre.api_key@) ==> r.status == 401 && r.body is Error
                && state_unchanged(pre, post)
            &&& (auth_ok(auth, pre.api_key@) && !has_session(pre.store.sessions@, key, upload_id@))
                ==> r.status == 500 && r.body is Error && state_unchanged(pre, post)
            &&& (auth_ok(auth, pre.api_key@) && has_session(pre.store.sessions@, key, upload_id@))
                ==> {
                let i = session_index(pre.store.sessions@, key, upload_id@);
                let stored = pre.store.sessions@[i].parts@;
                if parts_complete_ok(stored, parts@) {
                    &&& r.status == 200
                    &&& r.body matches ApiBody::MpuCompleted(c) && c.success && c.etag@
                        == crate::store::etag_of(pre.store.next_tag)
                    &&& has_object(post.store.objects@, key)
                    &&& object_data(post.store.objects@, key) == crate::store::assembled_data(
                        stored,
                        stored.len() as int,
                    )
                    &&& preserves_other_objects(pre.store.objects@, post.store.objects@, key)
                    &&& post.store.sessions@ == pre.store.sessions@.remove(i)
                } else {
                    r.status == 500 && r.body is Error && state_unchanged(pre, post)
                }
            }
        },
        ApiRequest::MpuAbort { auth, app, version, platform, upload_id } => {
            let key = artifact_key_spec(app@, version@, platform@);
            &&& post.registry == pre.registry
            &&& post.store.objects@ == pre.store.objects@
            &&& !auth_ok(auth, pre.api_key@) ==> r.status == 401 && r.body is Error
                && state_unchanged(pre, post)
            &&& (auth_ok(auth, pre.api_key@) && !has_session(pre.store.sessions@, key, upload_id@))
                ==> r.status == 400 && r.body is Error && state_unchanged(pre, post)
            &&& (auth_ok(auth, pre.api_key@) && has_session(pre.store.sessions@, key, upload_id@))
                ==> {
                &&& r.status == 204
                &&& r.body is Empty
                &&& post.store.sessions@ == pre.store.sessions@.remove(
                    session_index(pre.store.sessions@, key, upload_id@),
                )
                &&& !has_session(post.store.sessions@, key, upload_id@)
            }
        },
        ApiRequest::Finish { auth, app, body } => {
            let key = artifact_key_spec(app@, body.version@, body.platform@);
            &&& post.store == pre.store
            &&& !auth_ok(auth, pre.api_key@) ==> r.status == 401 && r.body is Error
                && state_unchanged(pre, post)
            &&& (auth_ok(auth, pre.api_key@) && !valid_triple(app@, body.version@, body.platform@))
                ==> r.status == 400 && r.body is Error && state_unchanged(pre, post)
            &&& (auth_ok(auth, pre.api_key@) && valid_triple(app@, body.version@, body.platform@)
                && !has_object(pre.store.objects@, key)) ==> r.status == 404 && r.body is Error
                && state_unchanged(pre, post)
            &&& (auth_ok(auth, pre.api_key@) && valid_triple(app@, body.version@, body.platform@)
                && has_object(pre.store.objects@, key)) ==> {
                &&& r.status == 200
                &&& r.body matches ApiBody::Finished(c) && c.success && c.app_name@ == app@
                    && c.version@ == body.version@ && c.platform@ == body.platform@
                &&& finish_committed_rows(pre, post, app@, body)
            }
        },
        ApiRequest::ListVersions { app } => {
            &&& state_unchanged(pre, post)
            &&& r.status == 200
            &&& r.body matches ApiBody::VersionList { app_name, versions } && app_name@ == app@
                && listing_matches(versions@, pre.registry.rows@, app@)
        },
        ApiRequest::Latest { app, platform } => {
            &&& state_unchanged(pre, post)
            &&& !supported_platform(platform@) ==> r.status == 400 && (
            r.body matches ApiBody::Error(e) && e.error@ == "Unsupported platform: "@ + platform@)
            &&& (supported_platform(platform@) && latest_row(pre.registry.rows@, app@, platform@)
                is None) ==> r.status == 404 && (r.body matches ApiBody::Error(e) && e.error@
                == "No versions found for platform"@)
            &&& (supported_platform(platform@) && latest_row(pre.registry.rows@, app@, platform@)
                is Some) ==> {
                let row = latest_row(pre.registry.rows@, app@, platform@)->Some_0;
                &&& r.status == 200
                &&& r.body matches ApiBody::Latest(l) && l.app_name@ == app@ && l.platform@
                    == platform@ && l.version@ == row.version@ && l.timestamp@ == row.timestamp@
                    && l.sha256@ == row.sha256@
            }
        },
        ApiRequest::Download { app, platform, version } => {
            &&& state_unchanged(pre, post)
            &&& !supported_platform(platform@) ==> r.status == 400 && (
            r.body matches ApiBody::Error(e) && e.error@ == "Unsupported platform: "@ + platform@)
            &&& (supported_platform(platform@) && version@ != "latest"@ && !has_row(
                pre.registry.rows@,
                app@,
                version@,
                platform@,
            )) ==> r.status == 404 && (r.body matches ApiBody::Error(e) && e.error@
                == "Version not found for platform"@)
            &&& (supported_platform(platform@) && version@ != "latest"@ && has_row(
                pre.registry.rows@,
                app@,
                version@,
                platform@,
            )) ==> {
                &&& r.status == 200
                &&& r.body matches ApiBody::File(f) && f.filename@ == download_filename_spec(
                    app@,
                    platform@,
                    version@,
                ) && f.data@ == object_data(
                    pre.store.objects@,
                    artifact_key_spec(app@, version@, platform@),
                )
            }
            &&& (supported_platform(platform@) && version@ == "latest"@ && latest_row(
                pre.registry.rows@,
                app@,
                platform@,
            ) is None) ==> r.status == 404 && (r.body matches ApiBody::Error(e) && e.error@
                == "Version not found for platform"@)
            &&& (supported_platform(platform@) && version@ == "latest"@ && latest_row(
                pre.registry.rows@,
                app@,
                platform@,
            ) is Some) ==> {
                let row = latest_row(pre.registry.rows@, app@, platform@)->Some_0;
                &&& r.status == 200
                &&& r.body matches ApiBody::File(f) && f.filename@ == download_filename_spec(
                    app@,
                    platform@,
                    row.version@,
                ) && f.data@ == object_data(
                    pre.store.objects@,
                    artifact_key_spec(app@, row.version@, platform@),
                )
            }
        },
        ApiRequest::Delete { auth, app, version } => {
            &&& post.store.sessions@ == pre.store.sessions@
            &&& !auth_ok(auth, pre.api_key@) ==> r.status == 401 && r.body is Error
                && state_unchanged(pre, post)
            &&& (auth_ok(auth, pre.api_key@) && !has_version(pre.registry.rows@, app@, version@))
                ==> r.status == 404 && (r.body matches ApiBody::Error(e) && e.error@
                == "Version not found"@) && state_unchanged(pre, post)
            &&& (auth_ok(auth, pre.api_key@) && has_version(pre.registry.rows@, app@, version@))
                ==> {
                &&& r.status == 200
                &&& r.body matches ApiBody::Deleted(d) && d.success && d.app_name@ == app@
                    && d.version@ == version@
                &&& delete_committed(pre, post, app@, version@)
            }
        },
    }
}

impl VersionServer {
    /// Routes one typed request to its handler, like the HTTP router does
    /// for paths and methods. `now` is the server-assigned timestamp a
    /// finish call commits.
    pub fn handle(&mut self, req: &ApiRequest, now: &str) -> (r: ApiResponse)
        requires
            old(self).wf(),
            old(self).store.next_tag < u64::MAX,
            old(self).registry.next_id < i64::MAX,
        ensures
            final(self).wf(),
            final(self).api_key == old(self).api_key,
            final(self).served@ == old(self).served@ + 1,
            final(self).store.next_tag <= old(self).store.next_tag + 1,
            final(self).registry.next_id <= old(self).registry.next_id + 1,
            routed(*req, *old(self), *final(self), r),
            // The committed row's timestamp is the one this call supplied.
            (req matches ApiRequest::Finish { auth, app, body } && auth_ok(
                *auth,
                old(self).api_key@,
            ) && valid_triple(app@, body.version@, body.platform@) && has_object(
                old(self).store.objects@,
                artifact_key_spec(app@, body.version@, body.platform@),
            )) ==> final(self).registry.rows@.last().timestamp@ == now@,
    {
        match req {
            ApiRequest::MpuCreate { auth, app, version, platform } => self.handle_mpu_create(
                auth,
                app.as_str(),
                version.as_str(),
                platform.as_str(),
            ),
            ApiRequest::MpuUploadPart { auth, app, version, platform, upload_id, part_number, body } => {
                let bytes = vstd::slice::slice_to_vec(body.as_slice());
                self.handle_mpu_upload_part(
                    auth,
                    app.as_str(),
                    version.as_str(),
                    platform.as_str(),
                    upload_id.as_str(),
                    *part_number,
                    bytes,
                )
            },
            ApiRequest::MpuComplete { auth, app, version, platform, upload_id, parts } => self
                .handle_mpu_complete(
                auth,
                app.as_str(),
                version.as_str(),
                platform.as_str(),
                upload_id.as_str(),
                parts,
            ),
            ApiRequest::MpuAbort { auth, app, version, platform, upload_id } => self
                .handle_mpu_abort(
                auth,
                app.as_str(),
                version.as_str(),
                platform.as_str(),
                upload_id.as_str(),
            ),
            ApiRequest::Finish { auth, app, body } => self.handle_finish(
                auth,
                app.as_str(),
                body,
                now,
            ),
            ApiRequest::ListVersions { app } => self.handle_list(app.as_str()),
            ApiRequest::Latest { app, platform } => self.handle_latest(
                app.as_str(),
                platform.as_str(),
            ),
            ApiRequest::Download { app, platform, version } => self.handle_download(
                app.as_str(),
                platform.as_str(),
                version.as_str(),
            ),
            ApiRequest::Delete { auth, app, version } => self.handle_delete(
                auth,
                app.as_str(),
                version.as_str(),
            ),
        }
    }

    /// The finish call with the server's own clock supplying the
    /// timestamp; apart from the timestamp, which depends on the clock,
    /// it commits exactly what `handle_finish` commits.
    pub fn finish_now(&mut self, auth: &Option<String>, app: &str, body: &CompleteVersionRequest) -> (r:
        ApiResponse)
        requires
            old(self).wf(),
            old(self).registry.next_id < i64::MAX,
        ensures
            final(self).wf(),
            final(self).api_key == old(self).api_key,
            final(self).served@ == old(self).served@ + 1,
            final(self).store == old(self).store,
            final(self).registry.next_id <= old(self).registry.next_id + 1,
            !auth_ok(*auth, old(self).api_key@) ==> r.status == 401 && r.body is Error
                && state_unchanged(*old(self), *final(self)),
            (auth_ok(*auth, old(self).api_key@) && !valid_triple(
                app@,
                body.version@,
                body.platform@,
            )) ==> r.status == 400 && r.body is Error && state_unchanged(*old(self), *final(self)),
            (auth_ok(*auth, old(self).api_key@) && valid_triple(app@, body.version@, body.platform@)
                && !has_object(
                old(self).store.objects@,
                artifact_key_spec(app@, body.version@, body.platform@),
            )) ==> r.status == 404 && r.body is Error && state_unchanged(*old(self), *final(self)),
            (auth_ok(*auth, old(self).api_key@) && valid_triple(app@, body.version@, body.platform@)
                && has_object(
                old(self).store.objects@,
                artifact_key_spec(app@, body.version@, body.platform@),
            )) ==> {
                &&& r.status == 200
                &&& r.body matches ApiBody::Finished(c) && c.success && c.app_name@ == app@
                    && c.version@ == body.version@ && c.platform@ == body.platform@
                &&& finish_committed_rows(*old(self), *final(self), app@, *body)
            },
    {
        let now = now_rfc3339();
        self.handle_finish(auth, app, body, now.as_str())
    }

    /// Routes one request stamped with the machine's current time.
    pub fn handle_now(&mut self, req: &ApiRequest) -> (r: ApiResponse)
        requires
            old(self).wf(),
            old(self).store.next_tag < u64::MAX,
            old(self).registry.next_id < i64::MAX,
        ensures
            final(self).wf(),
            final(self).api_key == old(self).api_key,
            final(self).served@ == old(self).served@ + 1,
            final(self).store.next_tag <= old(self).store.next_tag + 1,
            final(self).registry.next_id <= old(self).registry.next_id + 1,
            routed(*req, *old(self), *final(self), r),
    {
        let now = now_rfc3339();
        self.handle(req, now.as_str())
    }
}

/// Relies on chrono's `Utc::now` and `DateTime::to_rfc3339`: the current
/// time rendered as an RFC 3339 timestamp. Being the clock's reading,
/// nothing is assumed of the value.
#[verifier::external_body]
fn now_rfc3339() -> String {
    chrono::Utc::now().to_rfc3339()
}

/// What a successful deletion committed: the version's rows are gone, so
/// are exactly its blobs, and every other key maps to the data it had.
pub open spec fn delete_committed(
    pre: VersionServer,
    post: VersionServer,
    app: Seq<char>,
    version: Seq<char>,
) -> bool {
    &&& post.registry.rows@ == rows_without_version(pre.registry.rows@, app, version)
    &&& forall|p: Seq<char>|
        #[trigger] has_row(pre.registry.rows@, app, version, p) ==> !has_object(
            post.store.objects@,
            artifact_key_spec(app, version, p),
        )
    &&& forall|k: Seq<char>|
        (forall|p: Seq<char>|
            has_row(pre.registry.rows@, app, version, p) ==> k != artifact_key_spec(
                app,
                version,
                p,
            )) ==> ((#[trigger] has_object(post.store.objects@, k) <==> has_object(
            pre.store.objects@,
            k,
        )) && (has_object(pre.store.objects@, k) ==> object_data(post.store.objects@, k)
            == object_data(pre.store.objects@, k)))
}

/// Packages the facts established inside `handle_delete` into
/// `delete_committed`, away from the large proof context there.
proof fn lemma_delete_committed_intro(
    pre: VersionServer,
    post: VersionServer,
    app: Seq<char>,
    version: Seq<char>,
)
    requires
        post.registry.rows@ == rows_without_version(pre.registry.rows@, app, version),
        forall|p: Seq<char>|
            #[trigger] has_row(pre.registry.rows@, app, version, p) ==> !has_object(
                post.store.objects@,
                artifact_key_spec(app, version, p),
            ),
        forall|k: Seq<char>|
            (forall|p: Seq<char>|
                has_row(pre.registry.rows@, app, version, p) ==> k != artifact_key_spec(
                    app,
                    version,
                    p,
                )) ==> ((#[trigger] has_object(post.store.objects@, k) <==> has_object(
                pre.store.objects@,
                k,
            )) && (has_object(pre.store.objects@, k) ==> object_data(post.store.objects@, k)
                == object_data(pre.store.objects@, k))),
    ensures
        delete_committed(pre, post, app, version),
{
}

/// What a successful finish call committed: one new newest row binding the
/// request's triple to its checksum and the server-assigned timestamp,
/// replacing any previous row of the triple; nothing else moved.
pub open spec fn finish_committed_rows(
    pre: VersionServer,
    post: VersionServer,
    app: Seq<char>,
    body: CompleteVersionRequest,
) -> bool {
    &&& post.store == pre.store
    &&& post.registry.next_id == pre.registry.next_id + 1
    &&& post.registry.rows@.len() >= 1
    &&& row_matches(post.registry.rows@.last(), app, body.version@, body.platform@)
    &&& post.registry.rows@.last().sha256@ == body.sha256@
    &&& post.registry.rows@.last().id == Some(pre.registry.next_id)
    &&& has_row(post.registry.rows@, app, body.version@, body.platform@)
    &&& crate::registry::row_at(post.registry.rows@, app, body.version@, body.platform@)
        == post.registry.rows@.last()
    &&& post.registry.rows@.drop_last() == crate::registry::rows_without_version_platform(
        pre.registry.rows@,
        app,
        body.version@,
        body.platform@,
    )
}

pub open spec fn finish_committed(
    pre: VersionServer,
    post: VersionServer,
    app: Seq<char>,
    body: CompleteVersionRequest,
    now: Seq<char>,
) -> bool {
    &&& finish_committed_rows(pre, post, app, body)
    &&& post.registry.rows@.last().timestamp@ == now
}

} // verus!
