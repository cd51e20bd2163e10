//! Per-app listing: aggregates the registry's per-platform rows into one
//! logical entry per version, exposing all platforms and all per-platform
//! checksums, ordered newest version first.

use vstd::prelude::*;
use vstd::string::StringExecFns;

use crate::models::{AppVersion, VersionResponse};
use crate::registry::{has_row, has_version, row_matches, Registry};
use crate::strutil::{str_eq, views_of_pairs, views_of_strings};

verus! {

/// The distinct versions among `app`'s rows, ordered by their newest row,
/// newest first. An older row's version is appended only if no newer row
/// already contributed it.
pub open spec fn versions_desc(rows: Seq<AppVersion>, a: Seq<char>) -> Seq<Seq<char>>
    decreases rows.len(),
{
    if rows.len() == 0 {
        Seq::empty()
    } else {
        let rest = versions_desc(rows.drop_first(), a);
        if rows[0].app_name@ == a && !rest.contains(rows[0].version@) {
            rest.push(rows[0].version@)
        } else {
            rest
        }
    }
}

/// The platforms of `(a, v)`'s rows, newest row first.
pub open spec fn platforms_desc(rows: Seq<AppVersion>, a: Seq<char>, v: Seq<char>) -> Seq<
    Seq<char>,
>
    decreases rows.len(),
{
    if rows.len() == 0 {
        Seq::empty()
    } else {
        let rest = platforms_desc(rows.drop_first(), a, v);
        if rows[0].app_name@ == a && rows[0].version@ == v {
            rest.push(rows[0].platform@)
        } else {
            rest
        }
    }
}

/// The `(platform, sha256)` pairs of `(a, v)`'s rows, newest row first.
pub open spec fn shas_desc(rows: Seq<AppVersion>, a: Seq<char>, v: Seq<char>) -> Seq<
    (Seq<char>, Seq<char>),
>
    decreases rows.len(),
{
    if rows.len() == 0 {
        Seq::empty()
    } else {
        let rest = shas_desc(rows.drop_first(), a, v);
        if rows[0].app_name@ == a && rows[0].version@ == v {
            rest.push((rows[0].platform@, rows[0].sha256@))
        } else {
            rest
        }
    }
}

/// The newest row of `(a, v)`, whose timestamp the aggregated entry
/// carries.
pub open spec fn newest_version_row(rows: Seq<AppVersion>, a: Seq<char>, v: Seq<char>) -> Option<
    AppVersion,
>
    decreases rows.len(),
{
    if rows.len() == 0 {
        None
    } else if rows.last().app_name@ == a && rows.last().version@ == v {
        Some(rows.last())
    } else {
        newest_version_row(rows.drop_last(), a, v)
    }
}

/// One aggregated entry is faithful to the rows.
pub open spec fn entry_matches(e: VersionResponse, rows: Seq<AppVersion>, a: Seq<char>, v: Seq<char>) -> bool {
    &&& e.app_name@ == a
    &&& e.version@ == v
    &&& newest_version_row(rows, a, v) matches Some(nr) && e.timestamp@ == nr.timestamp@
    &&& views_of_strings(e.platforms@) == platforms_desc(rows, a, v)
    &&& views_of_pairs(e.sha256s@) == shas_desc(rows, a, v)
}

/// The whole listing is faithful: one entry per distinct version, newest
/// first, each aggregating its own rows.
pub open spec fn listing_matches(res: Seq<VersionResponse>, rows: Seq<AppVersion>, a: Seq<char>) -> bool {
    &&& res.len() == versions_desc(rows, a).len()
    &&& forall|i: int|
        0 <= i < res.len() ==> entry_matches(
            #[trigger] res[i],
            rows,
            a,
            versions_desc(rows, a)[i],
        )
}

/// Scans for `s` among the views of `v`'s entries.
fn vec_contains_str(v: &Vec<String>, s: &str) -> (r: bool)
    ensures
        r == views_of_strings(v@).contains(s@),
{
    let n = v.len();
    let mut i: usize = 0;
    while i < n
        invariant
            0 <= i <= n,
            n == v@.len(),
            forall|j: int| 0 <= j < i ==> (#[trigger] v@[j])@ != s@,
        decreases n - i,
    {
        if str_eq(v[i].as_str(), s) {
            assert(views_of_strings(v@)[i as int] == s@);
            return true;
        }
        i = i + 1;
    }
    proof {
        if views_of_strings(v@).contains(s@) {
            let j = choose|j: int| 0 <= j < v@.len() && #[trigger] views_of_strings(v@)[j] == s@;
            assert((v@[j])@ == s@);
            assert(false);
        }
    }
    false
}

/// Aggregates `app`'s rows into one entry per version. `rows` is the
/// registry table in insertion order.
pub fn list_for_app(reg: &Registry, app: &str) -> (res: Vec<VersionResponse>)
    requires
        reg.wf(),
    ensures
        listing_matches(res@, reg.rows@, app@),
{
    let rows = &reg.rows;
    let n = rows.len();

    // Pass 1: the distinct versions, newest first.
    let mut vs: Vec<String> = Vec::new();
    let mut i: usize = n;
    proof {
        assert(rows@.skip(n as int) =~= Seq::<AppVersion>::empty());
    }
    while i > 0
        invariant
            0 <= i <= n,
            n == rows@.len(),
            views_of_strings(vs@) == versions_desc(rows@.skip(i as int), app@),
        decreases i,
    {
        i = i - 1;
        proof {
            assert(rows@.skip(i as int).drop_first() =~= rows@.skip(i as int + 1));
            assert(rows@.skip(i as int)[0] == rows@[i as int]);
        }
        let ghost prev = vs@;
        if str_eq(rows[i].app_name.as_str(), app) && !vec_contains_str(&vs, rows[i].version.as_str())
        {
            vs.push(rows[i].version.clone());
            proof {
                assert(views_of_strings(vs@) =~= views_of_strings(prev).push(
                    rows@[i as int].version@,
                ));
            }
        }
        proof {
            assert(views_of_strings(vs@) =~= versions_desc(rows@.skip(i as int), app@));
        }
    }
    proof {
        assert(rows@.skip(0) =~= rows@);
    }

    // Pass 2: one aggregated entry per version.
    let m = vs.len();
    let mut res: Vec<VersionResponse> = Vec::new();
    let mut k: usize = 0;
    while k < m
        invariant
            reg.wf(),
            0 <= k <= m,
            n == rows@.len(),
            rows == &reg.rows,
            m == vs@.len(),
            views_of_strings(vs@) == versions_desc(rows@, app@),
            res@.len() == k,
            forall|j: int|
                0 <= j < k ==> entry_matches(
                    #[trigger] res@[j],
                    rows@,
                    app@,
                    versions_desc(rows@, app@)[j],
                ),
        decreases m - k,
    {
        let v = &vs[k];
        proof {
            assert(views_of_strings(vs@)[k as int] == vs@[k as int]@);
            lemma_versions_desc_props(rows@, app@, versions_desc(rows@, app@));
        }
        let entry = aggregate_entry(reg, app, v.as_str());
        res.push(entry);
        k = k + 1;
    }
    res
}

/// Builds the aggregated entry for one version known to have rows.
fn aggregate_entry(reg: &Registry, app: &str, v: &str) -> (e: VersionResponse)
    requires
        reg.wf(),
        has_version(reg.rows@, app@, v@),
    ensures
        entry_matches(e, reg.rows@, app@, v@),
{
    let rows = &reg.rows;
    let n = rows.len();

    // The newest row of this version carries the entry's timestamp.
    let mut ts: Option<&String> = None;
    let mut i: usize = n;
    proof {
        assert(rows@.skip(n as int) =~= Seq::<AppVersion>::empty());
        assert(rows@.take(n as int) =~= rows@);
    }
    while i > 0 && ts.is_none()
        invariant
            reg.wf(),
            0 <= i <= n,
            n == rows@.len(),
            rows == &reg.rows,
            match ts {
                Some(t) => newest_version_row(rows@, app@, v@) matches Some(nr) && t@
                    == nr.timestamp@,
                None => newest_version_row(rows@, app@, v@) == newest_version_row(
                    rows@.take(i as int),
                    app@,
                    v@,
                ),
            },
        decreases i,
    {
        i = i - 1;
        proof {
            assert(rows@.take(i as int + 1).last() == rows@[i as int]);
            assert(rows@.take(i as int + 1).drop_last() =~= rows@.take(i as int));
        }
        if str_eq(rows[i].app_name.as_str(), app) && str_eq(rows[i].version.as_str(), v) {
            ts = Some(&rows[i].timestamp);
        }
    }
    proof {
        if ts is None {
            assert(rows@.take(0) =~= Seq::<AppVersion>::empty());
            let j = choose|j: int|
                0 <= j < rows@.len() && (#[trigger] rows@[j]).app_name@ == app@ && rows@[j].version@
                    == v@;
            lemma_newest_version_row_some(rows@, app@, v@, j);
            assert(false);
        }
    }
    let timestamp = match ts {
        Some(t) => t.clone(),
        None => String::new(),
    };

    // Platforms and checksums, newest row first.
    let mut platforms: Vec<String> = Vec::new();
    let mut sha256s: Vec<(String, String)> = Vec::new();
    let mut k: usize = n;
    proof {
        assert(rows@.skip(n as int) =~= Seq::<AppVersion>::empty());
    }
    while k > 0
        invariant
            reg.wf(),
            0 <= k <= n,
            n == rows@.len(),
            rows == &reg.rows,
            views_of_strings(platforms@) == platforms_desc(rows@.skip(k as int), app@, v@),
            views_of_pairs(sha256s@) == shas_desc(rows@.skip(k as int), app@, v@),
        decreases k,
    {
        k = k - 1;
        proof {
            assert(rows@.skip(k as int).drop_first() =~= rows@.skip(k as int + 1));
            assert(rows@.skip(k as int)[0] == rows@[k as int]);
        }
        let ghost prev_p = platforms@;
        let ghost prev_s = sha256s@;
        if str_eq(rows[k].app_name.as_str(), app) && str_eq(rows[k].version.as_str(), v) {
            platforms.push(rows[k].platform.clone());
            sha256s.push((rows[k].platform.clone(), rows[k].sha256.clone()));
            proof {
                assert(views_of_strings(platforms@) =~= views_of_strings(prev_p).push(
                    rows@[k as int].platform@,
                ));
                assert(views_of_pairs(sha256s@) =~= views_of_pairs(prev_s).push((
                    rows@[k as int].platform@,
                    rows@[k as int].sha256@,
                )));
            }
        }
        proof {
            assert(views_of_strings(platforms@) =~= platforms_desc(rows@.skip(k as int), app@, v@));
            assert(views_of_pairs(sha256s@) =~= shas_desc(rows@.skip(k as int), app@, v@));
        }
    }
    proof {
        assert(rows@.skip(0) =~= rows@);
    }

    VersionResponse {
        app_name: String::from_str(app),
        version: String::from_str(v),
        timestamp,
        platforms,
        sha256s,
    }
}

/// A row of `(a, v)` at any index means the newest-row resolution answers.
pub proof fn lemma_newest_version_row_some(rows: Seq<AppVersion>, a: Seq<char>, v: Seq<char>, j: int)
    requires
        0 <= j < rows.len(),
        rows[j].app_name@ == a,
        rows[j].version@ == v,
    ensures
        newest_version_row(rows, a, v) is Some,
    decreases rows.len(),
{
    if rows.last().app_name@ == a && rows.last().version@ == v {
    } else {
        assert(j < rows.len() - 1);
        assert(rows.drop_last()[j] == rows[j]);
        lemma_newest_version_row_some(rows.drop_last(), a, v, j);
    }
}

/// The version list is sound and complete: every listed version has rows,
/// every version with rows is listed, and no version is listed twice.
pub proof fn lemma_versions_desc_props(rows: Seq<AppVersion>, a: Seq<char>, vs: Seq<Seq<char>>)
    requires
        vs == versions_desc(rows, a),
    ensures
        forall|i: int| 0 <= i < vs.len() ==> has_version(rows, a, #[trigger] vs[i]),
        forall|v: Seq<char>| #[trigger] has_version(rows, a, v) ==> vs.contains(v),
        forall|i: int, j: int| 0 <= i < j < vs.len() ==> vs[i] != vs[j],
    decreases rows.len(),
{
    if rows.len() == 0 {
    } else {
        let tail = rows.drop_first();
        let rest = versions_desc(tail, a);
        lemma_versions_desc_props(tail, a, rest);
        assert forall|i: int| 0 <= i < vs.len() implies has_version(rows, a, #[trigger] vs[i]) by {
            if i < rest.len() {
                assert(vs[i] == rest[i]);
                let j = choose|j: int|
                    0 <= j < tail.len() && (#[trigger] tail[j]).app_name@ == a && tail[j].version@
                        == rest[i];
                assert(rows[j + 1] == tail[j]);
            } else {
                assert(vs[i] == rows[0].version@);
            }
        }
        assert forall|v: Seq<char>| #[trigger] has_version(rows, a, v) implies vs.contains(v) by {
            let j = choose|j: int|
                0 <= j < rows.len() && (#[trigger] rows[j]).app_name@ == a && rows[j].version@ == v;
            if j == 0 {
                if rest.contains(v) {
                    let i = choose|i: int| 0 <= i < rest.len() && rest[i] == v;
                    assert(vs[i] == v);
                } else {
                    assert(vs.last() == v);
                }
            } else {
                assert(tail[j - 1] == rows[j]);
                assert(has_version(tail, a, v));
                let i = choose|i: int| 0 <= i < rest.len() && rest[i] == v;
                assert(vs[i] == v);
            }
        }
        assert forall|i: int, j: int| 0 <= i < j < vs.len() implies vs[i] != vs[j] by {
            if j < rest.len() {
            } else if rows[0].app_name@ == a && !rest.contains(rows[0].version@) {
                assert(vs[j] == rows[0].version@);
                assert(vs[i] == rest[i]);
                if vs[i] == vs[j] {
                    assert(rest.contains(rows[0].version@));
                }
            }
        }
    }
}

/// Sound and complete pairing of platforms with checksums in an entry.
pub proof fn lemma_platforms_desc_props(
    rows: Seq<AppVersion>,
    a: Seq<char>,
    v: Seq<char>,
    ps: Seq<Seq<char>>,
    ss: Seq<(Seq<char>, Seq<char>)>,
)
    requires
        ps == platforms_desc(rows, a, v),
        ss == shas_desc(rows, a, v),
    ensures
        ps.len() == ss.len(),
        forall|i: int| 0 <= i < ps.len() ==> has_row(rows, a, v, #[trigger] ps[i]),
        forall|i: int| 0 <= i < ss.len() ==> (#[trigger] ss[i]).0 == ps[i],
        forall|i: int|
            0 <= i < ss.len() ==> exists|j: int|
                0 <= j < rows.len() && row_matches(#[trigger] rows[j], a, v, (#[trigger] ss[i]).0)
                    && rows[j].sha256@ == ss[i].1,
        forall|p: Seq<char>| #[trigger] has_row(rows, a, v, p) ==> ps.contains(p),
    decreases rows.len(),
{
    if rows.len() == 0 {
    } else {
        let tail = rows.drop_first();
        lemma_platforms_desc_props(tail, a, v, platforms_desc(tail, a, v), shas_desc(tail, a, v));
        let prest = platforms_desc(tail, a, v);
        let srest = shas_desc(tail, a, v);
        assert forall|i: int| 0 <= i < ps.len() implies has_row(rows, a, v, #[trigger] ps[i]) by {
            if i < prest.len() {
                assert(ps[i] == prest[i]);
                let j = crate::registry::row_index(tail, a, v, prest[i]);
                assert(row_matches(rows[j + 1], a, v, ps[i]));
            } else {
                assert(row_matches(rows[0], a, v, ps[i]));
            }
        }
        assert forall|i: int|
            0 <= i < ss.len() implies exists|j: int|
            0 <= j < rows.len() && row_matches(#[trigger] rows[j], a, v, (#[trigger] ss[i]).0)
                && rows[j].sha256@ == ss[i].1 by {
            if i < srest.len() {
                assert(ss[i] == srest[i]);
                let j = choose|j: int|
                    0 <= j < tail.len() && row_matches(#[trigger] tail[j], a, v, srest[i].0)
                        && tail[j].sha256@ == srest[i].1;
                assert(rows[j + 1] == tail[j]);
            } else {
                assert(row_matches(rows[0], a, v, ss[i].0) && rows[0].sha256@ == ss[i].1);
            }
        }
        assert forall|p: Seq<char>| #[trigger] has_row(rows, a, v, p) implies ps.contains(p) by {
            let j = crate::registry::row_index(rows, a, v, p);
            if j == 0 {
                assert(ps.last() == p);
            } else {
                assert(tail[j - 1] == rows[j]);
                assert(has_row(tail, a, v, p));
                let i = choose|i: int| 0 <= i < prest.len() && prest[i] == p;
                assert(ps[i] == p);
            }
        }
    }
}

} // verus!
