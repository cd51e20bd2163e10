//! The version registry: a table of `(app_name, version, platform)` rows,
//! each bound to a checksum and a server-assigned timestamp. Supports
//! insert-or-replace, per-app listing, per-platform latest resolution and
//! atomic removal of every row of a version.
//!
//! Rows carry an insertion counter in their `id` field; since timestamps
//! are server-assigned at write time, insertion order is timestamp order,
//! and "newest" is resolved over the counter.

use vstd::prelude::*;
use vstd::string::StringExecFns;

use crate::models::AppVersion;
use crate::strutil::{str_eq, valid_component, views_of_strings};

verus! {

/// Row `r` binds exactly the triple `(a, v, p)`.
pub open spec fn row_matches(r: AppVersion, a: Seq<char>, v: Seq<char>, p: Seq<char>) -> bool {
    r.app_name@ == a && r.version@ == v && r.platform@ == p
}

pub open spec fn has_row(rows: Seq<AppVersion>, a: Seq<char>, v: Seq<char>, p: Seq<char>) -> bool {
    exists|i: int| 0 <= i < rows.len() && row_matches(rows[i], a, v, p)
}

pub open spec fn row_index(rows: Seq<AppVersion>, a: Seq<char>, v: Seq<char>, p: Seq<char>) -> int {
    choose|i: int| 0 <= i < rows.len() && row_matches(rows[i], a, v, p)
}

pub open spec fn row_at(rows: Seq<AppVersion>, a: Seq<char>, v: Seq<char>, p: Seq<char>) -> AppVersion {
    rows[row_index(rows, a, v, p)]
}

/// Some row of app `a` carries version `v`.
pub open spec fn has_version(rows: Seq<AppVersion>, a: Seq<char>, v: Seq<char>) -> bool {
    exists|i: int| 0 <= i < rows.len() && (#[trigger] rows[i]).app_name@ == a && rows[i].version@ == v
}

/// The newest row of app `a` carrying platform `p`: the last matching row
/// in insertion order.
pub open spec fn latest_row(rows: Seq<AppVersion>, a: Seq<char>, p: Seq<char>) -> Option<AppVersion>
    decreases rows.len(),
{
    if rows.len() == 0 {
        None
    } else if rows.last().app_name@ == a && rows.last().platform@ == p {
        Some(rows.last())
    } else {
        latest_row(rows.drop_last(), a, p)
    }
}

/// The platforms of app `a`'s rows for version `v`, in insertion order.
pub open spec fn platforms_of(rows: Seq<AppVersion>, a: Seq<char>, v: Seq<char>) -> Seq<Seq<char>>
    decreases rows.len(),
{
    if rows.len() == 0 {
        Seq::empty()
    } else {
        platforms_of(rows.drop_last(), a, v) + if rows.last().app_name@ == a
            && rows.last().version@ == v {
            seq![rows.last().platform@]
        } else {
            Seq::empty()
        }
    }
}

/// The rows left after removing every row of `(a, v)`.
pub open spec fn rows_without_version(rows: Seq<AppVersion>, a: Seq<char>, v: Seq<char>) -> Seq<
    AppVersion,
>
    decreases rows.len(),
{
    if rows.len() == 0 {
        Seq::empty()
    } else {
        rows_without_version(rows.drop_last(), a, v) + if rows.last().app_name@ == a
            && rows.last().version@ == v {
            Seq::empty()
        } else {
            seq![rows.last()]
        }
    }
}

/// The registry table plus its insertion counter.
pub struct Registry {
    pub rows: Vec<AppVersion>,
    pub next_id: i64,
}

impl Registry {
    /// Every row is validated, stamped with a unique, increasing counter
    /// value, and no two rows bind the same triple.
    pub open spec fn wf(&self) -> bool {
        &&& forall|i: int|
            0 <= i < self.rows@.len() ==> {
                &&& (#[trigger] self.rows@[i]).id matches Some(n) && 0 <= n < self.next_id
                &&& valid_component(self.rows@[i].app_name@)
                &&& valid_component(self.rows@[i].version@)
                &&& valid_component(self.rows@[i].platform@)
            }
        &&& forall|i: int, j: int|
            0 <= i < j < self.rows@.len() ==> (#[trigger] self.rows@[i]).id.unwrap() < (
            #[trigger] self.rows@[j]).id.unwrap()
        &&& forall|i: int, j: int|
            0 <= i < j < self.rows@.len() ==> !(row_matches(
                #[trigger] self.rows@[i],
                self.rows@[j].app_name@,
                self.rows@[j].version@,
                (#[trigger] self.rows@[j]).platform@,
            ))
        &&& self.next_id >= 0
    }

    pub fn new() -> (r: Registry)
        ensures
            r.wf(),
            r.rows@.len() == 0,
            r.next_id == 0,
    {
        Registry { rows: Vec::new(), next_id: 0 }
    }

    fn find_row(&self, app: &str, version: &str, platform: &str) -> (r: Option<usize>)
        requires
            self.wf(),
        ensures
            match r {
                Some(i) => i < self.rows@.len() && row_matches(
                    self.rows@[i as int],
                    app@,
                    version@,
                    platform@,
                ) && row_index(self.rows@, app@, version@, platform@) == i,
                None => !has_row(self.rows@, app@, version@, platform@),
            },
    {
        let n = self.rows.len();
        let mut i: usize = 0;
        while i < n
            invariant
                self.wf(),
                0 <= i <= n,
                n == self.rows@.len(),
                forall|j: int|
                    0 <= j < i ==> !row_matches(#[trigger] self.rows@[j], app@, version@, platform@),
            decreases n - i,
        {
            if str_eq(self.rows[i].app_name.as_str(), app) && str_eq(
                self.rows[i].version.as_str(),
                version,
            ) && str_eq(self.rows[i].platform.as_str(), platform) {
                proof {
                    lemma_row_index(*self, app@, version@, platform@, i as int);
                }
                return Some(i);
            }
            i = i + 1;
        }
        None
    }

    /// Looks a row up by its full triple.
    pub fn lookup(&self, app: &str, version: &str, platform: &str) -> (r: Option<&AppVersion>)
        requires
            self.wf(),
        ensures
            r is Some <==> has_row(self.rows@, app@, version@, platform@),
            r matches Some(row) ==> *row == row_at(self.rows@, app@, version@, platform@)
                && row_matches(*row, app@, version@, platform@),
    {
        match self.find_row(app, version, platform) {
            Some(i) => Some(&self.rows[i]),
            None => None,
        }
    }

    /// Insert-or-replace: commits one row for the triple, with the given
    /// server-assigned timestamp and checksum. An existing row of the same
    /// triple is replaced; the new row is the newest in the table.
    pub fn upsert(&mut self, app: &str, version: &str, platform: &str, timestamp: &str, sha256: &str)
        requires
            old(self).wf(),
            old(self).next_id < i64::MAX,
            valid_component(app@),
            valid_component(version@),
            valid_component(platform@),
        ensures
            final(self).wf(),
            final(self).next_id == old(self).next_id + 1,
            // The new row is the last one.
            final(self).rows@.len() >= 1,
            row_matches(final(self).rows@.last(), app@, version@, platform@),
            final(self).rows@.last().timestamp@ == timestamp@,
            final(self).rows@.last().sha256@ == sha256@,
            final(self).rows@.last().id == Some(old(self).next_id),
            has_row(final(self).rows@, app@, version@, platform@),
            row_at(final(self).rows@, app@, version@, platform@) == final(self).rows@.last(),
            // Structurally: any old row of the same triple is dropped, the
            // rest keep their order.
            final(self).rows@.drop_last() == rows_without_version_platform(
                old(self).rows@,
                app@,
                version@,
                platform@,
            ),
    {
        let ghost old_rows = self.rows@;
        let row = AppVersion {
            id: Some(self.next_id),
            app_name: String::from_str(app),
            version: String::from_str(version),
            platform: String::from_str(platform),
            timestamp: String::from_str(timestamp),
            sha256: String::from_str(sha256),
            created_at: Some(String::from_str(timestamp)),
            updated_at: Some(String::from_str(timestamp)),
        };
        match self.find_row(app, version, platform) {
            Some(i) => {
                self.rows.remove(i);
                proof {
                    assert(self.rows@ == old_rows.remove(i as int));
                    lemma_rows_without_version_platform_remove(old_rows, app@, version@, platform@, i as int);
                }
            },
            None => {
                proof {
                    lemma_rows_without_version_platform_absent(old_rows, app@, version@, platform@);
                    assert(self.rows@ =~= old_rows);
                }
            },
        }
        self.rows.push(row);
        self.next_id = self.next_id + 1;
        proof {
            assert(self.rows@.drop_last() =~= rows_without_version_platform(
                old_rows,
                app@,
                version@,
                platform@,
            ));
            let last = self.rows@.len() - 1;
            lemma_row_index(*self, app@, version@, platform@, last);
        }
    }
}

impl Registry {
    /// The newest row of `app` carrying `platform`, the per-platform
    /// "latest" resolution: newest by insertion order.
    pub fn latest_for_platform(&self, app: &str, platform: &str) -> (r: Option<&AppVersion>)
        requires
            self.wf(),
        ensures
            r is Some <==> latest_row(self.rows@, app@, platform@) is Some,
            r matches Some(row) ==> Some(*row) == latest_row(self.rows@, app@, platform@),
    {
        let n = self.rows.len();
        proof {
            assert(self.rows@.take(n as int) =~= self.rows@);
        }
        let mut i: usize = n;
        while i > 0
            invariant
                self.wf(),
                0 <= i <= n,
                n == self.rows@.len(),
                latest_row(self.rows@, app@, platform@) == latest_row(
                    self.rows@.take(i as int),
                    app@,
                    platform@,
                ),
            decreases i,
        {
            i = i - 1;
            proof {
                assert(self.rows@.take(i as int + 1).last() == self.rows@[i as int]);
                assert(self.rows@.take(i as int + 1).drop_last() =~= self.rows@.take(i as int));
            }
            if str_eq(self.rows[i].app_name.as_str(), app) && str_eq(
                self.rows[i].platform.as_str(),
                platform,
            ) {
                return Some(&self.rows[i]);
            }
        }
        None
    }

    /// The platforms of `app`'s rows for `version`, in insertion order.
    pub fn platforms_for(&self, app: &str, version: &str) -> (r: Vec<String>)
        requires
            self.wf(),
        ensures
            views_of_strings(r@) == platforms_of(self.rows@, app@, version@),
    {
        let n = self.rows.len();
        let mut out: Vec<String> = Vec::new();
        let mut i: usize = 0;
        while i < n
            invariant
                self.wf(),
                0 <= i <= n,
                n == self.rows@.len(),
                views_of_strings(out@) == platforms_of(
                    self.rows@.take(i as int),
                    app@,
                    version@,
                ),
            decreases n - i,
        {
            proof {
                assert(self.rows@.take(i as int + 1).last() == self.rows@[i as int]);
                assert(self.rows@.take(i as int + 1).drop_last() =~= self.rows@.take(i as int));
            }
            let ghost prev = out@;
            if str_eq(self.rows[i].app_name.as_str(), app) && str_eq(
                self.rows[i].version.as_str(),
                version,
            ) {
                out.push(self.rows[i].platform.clone());
                proof {
                    assert(views_of_strings(out@) =~= views_of_strings(prev).push(
                        self.rows@[i as int].platform@,
                    ));
                }
            }
            proof {
                assert(views_of_strings(out@) =~= platforms_of(
                    self.rows@.take(i as int + 1),
                    app@,
                    version@,
                ));
            }
            i = i + 1;
        }
        proof {
            assert(self.rows@.take(n as int) =~= self.rows@);
        }
        out
    }

    /// Removes every row of `(app, version)`, all platforms at once.
    pub fn remove_version(&mut self, app: &str, version: &str)
        requires
            old(self).wf(),
        ensures
            final(self).wf(),
            final(self).rows@ == rows_without_version(old(self).rows@, app@, version@),
            final(self).next_id == old(self).next_id,
    {
        let n = self.rows.len();
        let mut out: Vec<AppVersion> = Vec::new();
        let mut i: usize = 0;
        while i < n
            invariant
                self.wf(),
                0 <= i <= n,
                n == self.rows@.len(),
                out@ == rows_without_version(self.rows@.take(i as int), app@, version@),
                forall|k: int|
                    0 <= k < out@.len() ==> exists|j: int|
                        0 <= j < i && #[trigger] out@[k] == #[trigger] self.rows@[j],
                forall|k1: int, k2: int|
                    0 <= k1 < k2 < out@.len() ==> (#[trigger] out@[k1]).id.unwrap() < (
                    #[trigger] out@[k2]).id.unwrap(),
                forall|k: int, j: int|
                    0 <= k < out@.len() && i <= j < n ==> (#[trigger] out@[k]).id.unwrap() < (
                    #[trigger] self.rows@[j]).id.unwrap(),
            decreases n - i,
        {
            proof {
                assert(self.rows@.take(i as int + 1).last() == self.rows@[i as int]);
                assert(self.rows@.take(i as int + 1).drop_last() =~= self.rows@.take(i as int));
            }
            let keep = !(str_eq(self.rows[i].app_name.as_str(), app) && str_eq(
                self.rows[i].version.as_str(),
                version,
            ));
            if keep {
                out.push(self.rows[i].clone_row());
            }
            proof {
                assert(out@ =~= rows_without_version(
                    self.rows@.take(i as int + 1),
                    app@,
                    version@,
                ));
            }
            i = i + 1;
        }
        proof {
            assert(self.rows@.take(n as int) =~= self.rows@);
        }
        let ghost old_rows = self.rows@;
        self.rows = out;
        proof {
            assert forall|k1: int, k2: int|
                0 <= k1 < k2 < self.rows@.len() implies !(row_matches(
                #[trigger] self.rows@[k1],
                self.rows@[k2].app_name@,
                self.rows@[k2].version@,
                (#[trigger] self.rows@[k2]).platform@,
            )) by {
                let j1 = choose|j: int| 0 <= j < old_rows.len() && self.rows@[k1] == old_rows[j];
                let j2 = choose|j: int| 0 <= j < old_rows.len() && self.rows@[k2] == old_rows[j];
                assert(self.rows@[k1].id.unwrap() < self.rows@[k2].id.unwrap());
                if j1 < j2 {
                    assert(!row_matches(
                        old_rows[j1],
                        old_rows[j2].app_name@,
                        old_rows[j2].version@,
                        old_rows[j2].platform@,
                    ));
                } else if j2 < j1 {
                    assert(!row_matches(
                        old_rows[j2],
                        old_rows[j1].app_name@,
                        old_rows[j1].version@,
                        old_rows[j1].platform@,
                    ));
                }
            }
        }
    }
}

/// The rows left after removing any row binding exactly `(a, v, p)`.
pub open spec fn rows_without_version_platform(
    rows: Seq<AppVersion>,
    a: Seq<char>,
    v: Seq<char>,
    p: Seq<char>,
) -> Seq<AppVersion>
    decreases rows.len(),
{
    if rows.len() == 0 {
        Seq::empty()
    } else {
        rows_without_version_platform(rows.drop_last(), a, v, p) + if row_matches(
            rows.last(),
            a,
            v,
            p,
        ) {
            Seq::empty()
        } else {
            seq![rows.last()]
        }
    }
}

/// With no matching row, the removal changes nothing.
proof fn lemma_rows_without_version_platform_absent(
    rows: Seq<AppVersion>,
    a: Seq<char>,
    v: Seq<char>,
    p: Seq<char>,
)
    requires
        !has_row(rows, a, v, p),
    ensures
        rows_without_version_platform(rows, a, v, p) == rows,
    decreases rows.len(),
{
    if rows.len() > 0 {
        assert(!row_matches(rows.last(), a, v, p));
        assert(!has_row(rows.drop_last(), a, v, p)) by {
            if has_row(rows.drop_last(), a, v, p) {
                let i = row_index(rows.drop_last(), a, v, p);
                assert(row_matches(rows[i], a, v, p));
            }
        }
        lemma_rows_without_version_platform_absent(rows.drop_last(), a, v, p);
        assert(rows_without_version_platform(rows, a, v, p) =~= rows);
    } else {
        assert(rows_without_version_platform(rows, a, v, p) =~= rows);
    }
}

/// When exactly one row matches, the removal is `Seq::remove` at its index.
proof fn lemma_rows_without_version_platform_remove(
    rows: Seq<AppVersion>,
    a: Seq<char>,
    v: Seq<char>,
    p: Seq<char>,
    i: int,
)
    requires
        0 <= i < rows.len(),
        row_matches(rows[i], a, v, p),
        forall|m: int, n: int|
            0 <= m < n < rows.len() ==> !(row_matches(
                #[trigger] rows[m],
                rows[n].app_name@,
                rows[n].version@,
                (#[trigger] rows[n]).platform@,
            )),
    ensures
        rows_without_version_platform(rows, a, v, p) == rows.remove(i),
    decreases rows.len(),
{
    let last = rows.len() - 1;
    if i == last {
        assert(!has_row(rows.drop_last(), a, v, p)) by {
            if has_row(rows.drop_last(), a, v, p) {
                let j = row_index(rows.drop_last(), a, v, p);
                assert(row_matches(rows[j], rows[last].app_name@, rows[last].version@, rows[last].platform@));
            }
        }
        lemma_rows_without_version_platform_absent(rows.drop_last(), a, v, p);
        assert(rows_without_version_platform(rows, a, v, p) =~= rows.remove(i));
    } else {
        assert(!row_matches(rows.last(), a, v, p)) by {
            if row_matches(rows.last(), a, v, p) {
                assert(row_matches(rows[i], rows[last].app_name@, rows[last].version@, rows[last].platform@));
            }
        }
        assert(rows.drop_last()[i] == rows[i]);
        lemma_rows_without_version_platform_remove(rows.drop_last(), a, v, p, i);
        assert(rows_without_version_platform(rows, a, v, p) =~= rows.remove(i));
    }
}

/// Committing a row for one triple leaves every other triple's row with
/// the very value it had, and creates no row for any other triple.
pub proof fn lemma_upsert_preserves_other(
    pre: Registry,
    post: Registry,
    a: Seq<char>,
    v: Seq<char>,
    p_new: Seq<char>,
    a2: Seq<char>,
    v2: Seq<char>,
    p2: Seq<char>,
)
    requires
        pre.wf(),
        post.wf(),
        post.rows@.len() >= 1,
        post.rows@.drop_last() == rows_without_version_platform(pre.rows@, a, v, p_new),
        row_matches(post.rows@.last(), a, v, p_new),
        !(a2 == a && v2 == v && p2 == p_new),
    ensures
        has_row(post.rows@, a2, v2, p2) <==> has_row(pre.rows@, a2, v2, p2),
        has_row(pre.rows@, a2, v2, p2) ==> row_at(post.rows@, a2, v2, p2) == row_at(
            pre.rows@,
            a2,
            v2,
            p2,
        ),
{
    let rw = rows_without_version_platform(pre.rows@, a, v, p_new);
    lemma_rows_without_version_platform_props(pre.rows@, a, v, p_new, rw);
    if has_row(pre.rows@, a2, v2, p2) {
        assert(has_row(rw, a2, v2, p2));
        let k = row_index(rw, a2, v2, p2);
        assert(row_matches(rw[k], a2, v2, p2));
        assert(post.rows@[k] == rw[k]);
        lemma_row_index(post, a2, v2, p2, k);
        let j = choose|j: int|
            0 <= j < pre.rows@.len() && #[trigger] rw[k] == #[trigger] pre.rows@[j];
        lemma_row_index(pre, a2, v2, p2, j);
    }
    if has_row(post.rows@, a2, v2, p2) {
        let k = row_index(post.rows@, a2, v2, p2);
        assert(row_matches(post.rows@[k], a2, v2, p2));
        if k < post.rows@.len() - 1 {
            assert(rw[k] == post.rows@[k]);
            assert(has_row(rw, a2, v2, p2));
        } else {
            assert(post.rows@[k] == post.rows@.last());
            assert(a2 == a && v2 == v && p2 == p_new);
            assert(false);
        }
    }
}

/// Replacing one triple leaves every other triple's row as it was.
pub proof fn lemma_rows_without_version_platform_props(
    rows: Seq<AppVersion>,
    a: Seq<char>,
    v: Seq<char>,
    p: Seq<char>,
    res: Seq<AppVersion>,
)
    requires
        res == rows_without_version_platform(rows, a, v, p),
    ensures
        forall|a2: Seq<char>, v2: Seq<char>, p2: Seq<char>|
            !(a2 == a && v2 == v && p2 == p) ==> (#[trigger] has_row(res, a2, v2, p2) <==> has_row(
                rows,
                a2,
                v2,
                p2,
            )),
        forall|i: int|
            0 <= i < res.len() ==> exists|j: int|
                0 <= j < rows.len() && #[trigger] res[i] == #[trigger] rows[j],
    decreases rows.len(),
{
    lemma_rows_without_version_platform_sub(rows, a, v, p, res);
    if rows.len() == 0 {
        assert forall|a2: Seq<char>, v2: Seq<char>, p2: Seq<char>|
            !(a2 == a && v2 == v && p2 == p) implies (#[trigger] has_row(res, a2, v2, p2)
            <==> has_row(rows, a2, v2, p2)) by {
            assert(!has_row(res, a2, v2, p2));
            assert(!has_row(rows, a2, v2, p2));
        }
    } else {
        let init = rows.drop_last();
        let rinit = rows_without_version_platform(init, a, v, p);
        lemma_rows_without_version_platform_props(init, a, v, p, rinit);
        let last = rows.last();
        assert forall|a2: Seq<char>, v2: Seq<char>, p2: Seq<char>|
            !(a2 == a && v2 == v && p2 == p) implies (#[trigger] has_row(res, a2, v2, p2)
            <==> has_row(rows, a2, v2, p2)) by {
            if has_row(res, a2, v2, p2) {
                let i = row_index(res, a2, v2, p2);
                if i < rinit.len() {
                    assert(rinit[i] == res[i]);
                    assert(has_row(rinit, a2, v2, p2));
                    let j = row_index(init, a2, v2, p2);
                    assert(row_matches(rows[j], a2, v2, p2));
                } else {
                    assert(res[i] == last);
                    assert(row_matches(rows[rows.len() - 1], a2, v2, p2));
                }
            }
            if has_row(rows, a2, v2, p2) {
                let j = row_index(rows, a2, v2, p2);
                if j < init.len() {
                    assert(init[j] == rows[j]);
                    assert(has_row(init, a2, v2, p2));
                    assert(has_row(rinit, a2, v2, p2));
                    let i = row_index(rinit, a2, v2, p2);
                    assert(0 <= i < rinit.len() && row_matches(rinit[i], a2, v2, p2));
                    assert(res[i] == rinit[i]);
                    assert(row_matches(res[i], a2, v2, p2));
                } else {
                    assert(row_matches(last, a2, v2, p2));
                    assert(!row_matches(last, a, v, p));
                    assert(res[res.len() - 1] == last);
                    assert(row_matches(res[res.len() - 1], a2, v2, p2));
                }
            }
        }
    }
}

/// Every row surviving a single-triple replacement was already a row.
pub proof fn lemma_rows_without_version_platform_sub(
    rows: Seq<AppVersion>,
    a: Seq<char>,
    v: Seq<char>,
    p: Seq<char>,
    res: Seq<AppVersion>,
)
    requires
        res == rows_without_version_platform(rows, a, v, p),
    ensures
        forall|i: int|
            0 <= i < res.len() ==> exists|j: int|
                0 <= j < rows.len() && #[trigger] res[i] == #[trigger] rows[j],
    decreases rows.len(),
{
    if rows.len() > 0 {
        let init = rows.drop_last();
        let rinit = rows_without_version_platform(init, a, v, p);
        lemma_rows_without_version_platform_sub(init, a, v, p, rinit);
        assert forall|i: int|
            0 <= i < res.len() implies exists|j: int|
            0 <= j < rows.len() && #[trigger] res[i] == #[trigger] rows[j] by {
            if i < rinit.len() {
                assert(res[i] == rinit[i]);
                let j = choose|j: int| 0 <= j < init.len() && #[trigger] rinit[i] == #[trigger] init[j];
                assert(res[i] == rows[j]);
            } else {
                assert(res[i] == rows[rows.len() - 1]);
            }
        }
    }
}

/// What survives the removal of a version: no row of `(a, v)` is left,
/// every surviving row is one of the originals, and rows of every other
/// `(app, version)` pair survive unchanged.
pub proof fn lemma_rows_without_version_props(
    rows: Seq<AppVersion>,
    a: Seq<char>,
    v: Seq<char>,
    res: Seq<AppVersion>,
)
    requires
        res == rows_without_version(rows, a, v),
    ensures
        forall|i: int|
            0 <= i < res.len() ==> !((#[trigger] res[i]).app_name@ == a && res[i].version@ == v),
        forall|i: int|
            0 <= i < res.len() ==> exists|j: int|
                0 <= j < rows.len() && #[trigger] res[i] == #[trigger] rows[j],
        forall|a2: Seq<char>, v2: Seq<char>, p2: Seq<char>|
            !(a2 == a && v2 == v) ==> (#[trigger] has_row(res, a2, v2, p2) <==> has_row(
                rows,
                a2,
                v2,
                p2,
            )),
    decreases rows.len(),
{
    if rows.len() == 0 {
        assert forall|a2: Seq<char>, v2: Seq<char>, p2: Seq<char>|
            !(a2 == a && v2 == v) implies (#[trigger] has_row(res, a2, v2, p2) <==> has_row(
            rows,
            a2,
            v2,
            p2,
        )) by {
            assert(!has_row(res, a2, v2, p2));
            assert(!has_row(rows, a2, v2, p2));
        }
    } else {
        let init = rows.drop_last();
        let rinit = rows_without_version(init, a, v);
        lemma_rows_without_version_props(init, a, v, rinit);
        let last = rows.last();
        assert forall|i: int|
            0 <= i < res.len() implies exists|j: int|
            0 <= j < rows.len() && #[trigger] res[i] == #[trigger] rows[j] by {
            if i < rinit.len() {
                assert(res[i] == rinit[i]);
                let j = choose|j: int| 0 <= j < init.len() && rinit[i] == #[trigger] init[j];
                assert(res[i] == rows[j]);
            } else {
                assert(res[i] == last);
                assert(res[i] == rows[rows.len() - 1]);
            }
        }
        assert forall|a2: Seq<char>, v2: Seq<char>, p2: Seq<char>|
            !(a2 == a && v2 == v) implies (#[trigger] has_row(res, a2, v2, p2) <==> has_row(
            rows,
            a2,
            v2,
            p2,
        )) by {
            if has_row(res, a2, v2, p2) {
                let i = row_index(res, a2, v2, p2);
                if i < rinit.len() {
                    assert(rinit[i] == res[i]);
                    assert(has_row(rinit, a2, v2, p2));
                    let j = row_index(init, a2, v2, p2);
                    assert(row_matches(rows[j], a2, v2, p2));
                } else {
                    assert(res[i] == last);
                    assert(row_matches(rows[rows.len() - 1], a2, v2, p2));
                }
            }
            if has_row(rows, a2, v2, p2) {
                let j = row_index(rows, a2, v2, p2);
                if j < init.len() {
                    assert(init[j] == rows[j]);
                    assert(has_row(init, a2, v2, p2));
                    assert(has_row(rinit, a2, v2, p2));
                    let i = row_index(rinit, a2, v2, p2);
                    assert(res[i] == rinit[i]);
                    assert(row_matches(res[i], a2, v2, p2));
                } else {
                    assert(row_matches(last, a2, v2, p2));
                    assert(!(last.app_name@ == a && last.version@ == v));
                    assert(res[res.len() - 1] == last);
                    assert(row_matches(res[res.len() - 1], a2, v2, p2));
                }
            }
        }
    }
}

/// The "latest" resolution is sound and maximal: it answers exactly when
/// some row of the app carries the platform, with a row of the app and
/// platform whose insertion counter dominates every other such row.
pub proof fn lemma_latest_row_props(rows: Seq<AppVersion>, a: Seq<char>, p: Seq<char>)
    requires
        forall|i: int, j: int|
            0 <= i < j < rows.len() ==> (#[trigger] rows[i]).id.unwrap() < (
            #[trigger] rows[j]).id.unwrap(),
    ensures
        latest_row(rows, a, p) is Some <==> exists|i: int|
            0 <= i < rows.len() && (#[trigger] rows[i]).app_name@ == a && rows[i].platform@ == p,
        latest_row(rows, a, p) matches Some(row) ==> {
            &&& exists|i: int| 0 <= i < rows.len() && #[trigger] rows[i] == row
            &&& row.app_name@ == a
            &&& row.platform@ == p
            &&& forall|i: int|
                0 <= i < rows.len() && (#[trigger] rows[i]).app_name@ == a && rows[i].platform@
                    == p ==> rows[i].id.unwrap() <= row.id.unwrap()
        },
    decreases rows.len(),
{
    if rows.len() == 0 {
    } else {
        let last = rows.last();
        let init = rows.drop_last();
        if last.app_name@ == a && last.platform@ == p {
            assert(rows[rows.len() - 1] == last);
        } else {
            lemma_latest_row_props(init, a, p);
            if latest_row(rows, a, p) is Some {
                let row = latest_row(rows, a, p)->Some_0;
                let i = choose|i: int| 0 <= i < init.len() && #[trigger] init[i] == row;
                assert(rows[i] == row);
                assert forall|i: int|
                    0 <= i < rows.len() && (#[trigger] rows[i]).app_name@ == a && rows[i].platform@
                        == p implies rows[i].id.unwrap() <= row.id.unwrap() by {
                    assert(i < rows.len() - 1);
                    assert(init[i] == rows[i]);
                }
            }
            if exists|i: int|
                0 <= i < rows.len() && (#[trigger] rows[i]).app_name@ == a && rows[i].platform@
                    == p {
                let i = choose|i: int|
                    0 <= i < rows.len() && (#[trigger] rows[i]).app_name@ == a && rows[i].platform@
                        == p;
                assert(i < rows.len() - 1);
                assert(init[i] == rows[i]);
            }
        }
    }
}

/// The platform listing of a version holds exactly the platforms of its
/// rows.
pub proof fn lemma_platforms_of_props(
    rows: Seq<AppVersion>,
    a: Seq<char>,
    v: Seq<char>,
    po: Seq<Seq<char>>,
)
    requires
        po == platforms_of(rows, a, v),
    ensures
        forall|i: int| 0 <= i < po.len() ==> has_row(rows, a, v, #[trigger] po[i]),
        forall|pp: Seq<char>|
            #[trigger] has_row(rows, a, v, pp) ==> exists|i: int|
                0 <= i < po.len() && po[i] == pp,
    decreases rows.len(),
{
    if rows.len() == 0 {
    } else {
        let init = rows.drop_last();
        let pinit = platforms_of(init, a, v);
        lemma_platforms_of_props(init, a, v, pinit);
        let last = rows.last();
        assert forall|i: int| 0 <= i < po.len() implies has_row(rows, a, v, #[trigger] po[i]) by {
            if i < pinit.len() {
                assert(po[i] == pinit[i]);
                let j = row_index(init, a, v, pinit[i]);
                assert(row_matches(rows[j], a, v, po[i]));
            } else {
                assert(po[i] == last.platform@);
                assert(row_matches(rows[rows.len() - 1], a, v, po[i]));
            }
        }
        assert forall|pp: Seq<char>| #[trigger] has_row(rows, a, v, pp) implies exists|i: int|
            0 <= i < po.len() && po[i] == pp by {
            let j = row_index(rows, a, v, pp);
            if j < init.len() {
                assert(init[j] == rows[j]);
                assert(has_row(init, a, v, pp));
                let i = choose|i: int| 0 <= i < pinit.len() && pinit[i] == pp;
                assert(po[i] == pp);
            } else {
                assert(row_matches(last, a, v, pp));
                assert(po[po.len() - 1] == pp);
            }
        }
    }
}

/// Any index whose row binds the triple is the index `row_index` names.
pub proof fn lemma_row_index(r: Registry, a: Seq<char>, v: Seq<char>, p: Seq<char>, i: int)
    requires
        r.wf(),
        0 <= i < r.rows@.len(),
        row_matches(r.rows@[i], a, v, p),
    ensures
        has_row(r.rows@, a, v, p),
        row_index(r.rows@, a, v, p) == i,
        row_at(r.rows@, a, v, p) == r.rows@[i],
{
    assert(has_row(r.rows@, a, v, p));
    let j = row_index(r.rows@, a, v, p);
    if i != j {
        if i < j {
            assert(!row_matches(r.rows@[i], r.rows@[j].app_name@, r.rows@[j].version@, r.rows@[j].platform@));
        } else {
            assert(!row_matches(r.rows@[j], r.rows@[i].app_name@, r.rows@[i].version@, r.rows@[i].platform@));
        }
        assert(false);
    }
}

} // verus!
