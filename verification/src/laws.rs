//! The system-wide laws: what the contracts of the store, registry,
//! coordinator and client add up to across calls.

use vstd::prelude::*;

use crate::client::{file_platforms, upload_rows_frame, uploaded_file_ok};
use crate::keys::artifact_key_spec;
use crate::listing::{lemma_versions_desc_props, versions_desc};
use crate::registry::{
    has_row, has_version, latest_row, lemma_latest_row_props, lemma_rows_without_version_props,
    row_index, row_matches, Registry,
};
use crate::server::{delete_committed, VersionServer};
use crate::store::{has_object, object_data};

verus! {

/// Round trip: once an upload of `f` for its platform took — which is
/// what `upload_version` ensures of every uploaded file — a download of
/// the same triple is owed success, and the bytes it is pinned to are
/// exactly the uploaded ones. `download_version`'s contract returns
/// `object_data` at this key whenever the row exists.
pub proof fn lemma_upload_download_round_trip(
    srv: VersionServer,
    app: Seq<char>,
    version: Seq<char>,
    f: (String, Vec<u8>),
)
    requires
        srv.wf(),
        uploaded_file_ok(srv, app, version, f),
    ensures
        has_row(srv.registry.rows@, app, version, f.0@),
        object_data(srv.store.objects@, artifact_key_spec(app, version, f.0@)) == f.1@,
{
}

/// Deletion is complete: after `delete(app, version)` no row of the
/// version survives on any platform, the listing no longer contains the
/// version, and every blob that backed it is gone.
pub proof fn lemma_delete_removes_version(
    pre: VersionServer,
    post: VersionServer,
    app: Seq<char>,
    version: Seq<char>,
)
    requires
        pre.wf(),
        post.wf(),
        delete_committed(pre, post, app, version),
    ensures
        forall|p: Seq<char>| !has_row(post.registry.rows@, app, version, p),
        !versions_desc(post.registry.rows@, app).contains(version),
        forall|p: Seq<char>|
            #[trigger] has_row(pre.registry.rows@, app, version, p) ==> !has_object(
                post.store.objects@,
                artifact_key_spec(app, version, p),
            ),
{
    let rows = post.registry.rows@;
    lemma_rows_without_version_props(pre.registry.rows@, app, version, rows);
    assert forall|p: Seq<char>| !has_row(rows, app, version, p) by {
        if has_row(rows, app, version, p) {
            let i = row_index(rows, app, version, p);
            assert(row_matches(rows[i], app, version, p));
            assert(false);
        }
    }
    let vs = versions_desc(rows, app);
    lemma_versions_desc_props(rows, app, vs);
    if vs.contains(version) {
        let i = choose|i: int| 0 <= i < vs.len() && vs[i] == version;
        assert(has_version(rows, app, vs[i]));
        let j = choose|j: int|
            0 <= j < rows.len() && (#[trigger] rows[j]).app_name@ == app && rows[j].version@
                == version;
        assert(false);
    }
}

/// Latest resolution is sound and maximal: it is absent exactly when no
/// row of the app carries the platform — even if other platforms have
/// versions — and otherwise answers with a row of that app and platform
/// whose insertion counter (the server-assigned write order, and so the
/// most recent registry timestamp) dominates every other such row.
pub proof fn lemma_latest_resolution(reg: Registry, app: Seq<char>, platform: Seq<char>)
    requires
        reg.wf(),
    ensures
        latest_row(reg.rows@, app, platform) is None <==> (forall|i: int|
            0 <= i < reg.rows@.len() ==> !((#[trigger] reg.rows@[i]).app_name@ == app
                && reg.rows@[i].platform@ == platform)),
        latest_row(reg.rows@, app, platform) matches Some(row) ==> {
            &&& row.app_name@ == app
            &&& row.platform@ == platform
            &&& exists|i: int| 0 <= i < reg.rows@.len() && #[trigger] reg.rows@[i] == row
            &&& forall|i: int|
                0 <= i < reg.rows@.len() && (#[trigger] reg.rows@[i]).app_name@ == app
                    && reg.rows@[i].platform@ == platform ==> reg.rows@[i].id.unwrap()
                    <= row.id.unwrap()
        },
{
    lemma_latest_row_props(reg.rows@, app, platform);
}

/// Uploading into an app the registry had no rows for: the listing then
/// holds exactly one version — the uploaded one — and the latest
/// resolution for each uploaded platform answers that version. This is
/// what `upload_version`'s per-file clauses and its frame add up to.
pub proof fn lemma_upload_into_fresh_app(
    pre: VersionServer,
    post: VersionServer,
    app: Seq<char>,
    version: Seq<char>,
    files: Seq<(String, Vec<u8>)>,
)
    requires
        post.wf(),
        files.len() > 0,
        forall|i: int|
            0 <= i < files.len() ==> uploaded_file_ok(post, app, version, #[trigger] files[i]),
        upload_rows_frame(pre, post, app, version, files),
        forall|i: int|
            0 <= i < pre.registry.rows@.len() ==> (#[trigger] pre.registry.rows@[i]).app_name@
                != app,
    ensures
        versions_desc(post.registry.rows@, app) == seq![version],
        forall|i: int|
            0 <= i < files.len() ==> latest_row(
                post.registry.rows@,
                app,
                (#[trigger] files[i]).0@,
            ) is Some && latest_row(post.registry.rows@, app, files[i].0@)->Some_0.version@
                == version,
{
    let rows = post.registry.rows@;

    // Every row of the app carries the uploaded version: the frame admits
    // no other, since the app had no rows before.
    assert forall|j: int|
        0 <= j < rows.len() && (#[trigger] rows[j]).app_name@ == app implies rows[j].version@
        == version by {
        let t_v = rows[j].version@;
        let t_p = rows[j].platform@;
        crate::registry::lemma_row_index(post.registry, app, t_v, t_p, j);
        if t_v != version {
            assert(has_row(rows, app, t_v, t_p));
            assert(has_row(pre.registry.rows@, app, t_v, t_p));
            let jj = row_index(pre.registry.rows@, app, t_v, t_p);
            assert(row_matches(pre.registry.rows@[jj], app, t_v, t_p));
            assert(false);
        }
    }

    // The version list is exactly the uploaded version.
    let vs = versions_desc(rows, app);
    lemma_versions_desc_props(rows, app, vs);
    assert(uploaded_file_ok(post, app, version, files[0]));
    assert(has_row(rows, app, version, files[0].0@));
    let j0 = row_index(rows, app, version, files[0].0@);
    assert(row_matches(rows[j0], app, version, files[0].0@));
    assert(has_version(rows, app, version));
    assert(vs.contains(version));
    assert forall|i: int| 0 <= i < vs.len() implies vs[i] == version by {
        assert(has_version(rows, app, vs[i]));
        let j = choose|j: int|
            0 <= j < rows.len() && (#[trigger] rows[j]).app_name@ == app && rows[j].version@
                == vs[i];
    }
    let i0 = choose|i: int| 0 <= i < vs.len() && vs[i] == version;
    if vs.len() > 1 {
        assert(vs[0] == version && vs[1] == version);
        assert(false);
    }
    assert(vs =~= seq![version]);

    // The latest row of each uploaded platform is an app row, hence
    // carries the uploaded version.
    assert forall|i: int| 0 <= i < files.len() implies latest_row(
        rows,
        app,
        (#[trigger] files[i]).0@,
    ) is Some && latest_row(rows, app, files[i].0@)->Some_0.version@ == version by {
        let p = files[i].0@;
        assert(uploaded_file_ok(post, app, version, files[i]));
        assert(has_row(rows, app, version, p));
        let j = row_index(rows, app, version, p);
        assert(row_matches(rows[j], app, version, p));
        lemma_latest_row_props(rows, app, p);
        let row = latest_row(rows, app, p)->Some_0;
        let k = choose|k: int| 0 <= k < rows.len() && #[trigger] rows[k] == row;
        assert(rows[k].app_name@ == app);
    }
}

/// An aborted session leaves nothing visible: creating a session and
/// feeding it parts never writes an object or a registry row — those are
/// the handlers' contracts — so after the abort the target key still has
/// no retrievable object and the version is still absent from the
/// listing.
pub proof fn lemma_abort_leaves_nothing(
    pre: VersionServer,
    post: VersionServer,
    key: Seq<char>,
    app: Seq<char>,
    version: Seq<char>,
)
    requires
        post.registry == pre.registry,
        post.store.objects@ == pre.store.objects@,
        !has_object(pre.store.objects@, key),
        !has_version(pre.registry.rows@, app, version),
    ensures
        !has_object(post.store.objects@, key),
        !versions_desc(post.registry.rows@, app).contains(version),
{
    let rows = post.registry.rows@;
    let vs = versions_desc(rows, app);
    lemma_versions_desc_props(rows, app, vs);
    if vs.contains(version) {
        let i = choose|i: int| 0 <= i < vs.len() && vs[i] == version;
        assert(has_version(rows, app, vs[i]));
        assert(false);
    }
}

} // verus!
