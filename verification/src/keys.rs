//! The artifact addressing scheme: a blob's key is derived
//! deterministically as `{app}/{version}/{app}-{platform}.zip`. This is
//! the sole addressing scheme; on slash-free components it is injective,
//! which is what lets a deletion remove exactly its own blobs.

use vstd::prelude::*;
use vstd::string::StringExecFns;

use crate::strutil::{no_slash, valid_component};

verus! {

/// The key under which the artifact for `(app, version, platform)` is
/// stored.
pub open spec fn artifact_key_spec(app: Seq<char>, version: Seq<char>, platform: Seq<char>) -> Seq<
    char,
> {
    app + seq!['/'] + version + seq!['/'] + app + seq!['-'] + platform + seq!['.', 'z', 'i', 'p']
}

pub fn artifact_key(app: &str, version: &str, platform: &str) -> (r: String)
    ensures
        r@ == artifact_key_spec(app@, version@, platform@),
{
    proof {
        reveal_strlit("/");
        reveal_strlit("-");
        reveal_strlit(".zip");
    }
    let mut s = String::from_str(app);
    s.append("/");
    s.append(version);
    s.append("/");
    s.append(app);
    s.append("-");
    s.append(platform);
    s.append(".zip");
    proof {
        assert(s@ =~= artifact_key_spec(app@, version@, platform@));
    }
    s
}

/// Where each piece of the key sits.
proof fn lemma_key_index(a: Seq<char>, v: Seq<char>, p: Seq<char>)
    ensures
        artifact_key_spec(a, v, p).len() == 2 * a.len() + v.len() + p.len() + 7,
        forall|i: int| 0 <= i < a.len() ==> artifact_key_spec(a, v, p)[i] == a[i],
        artifact_key_spec(a, v, p)[a.len() as int] == '/',
        forall|i: int|
            0 <= i < v.len() ==> artifact_key_spec(a, v, p)[a.len() + 1 + i] == v[i],
        artifact_key_spec(a, v, p)[a.len() + 1 + v.len() as int] == '/',
        forall|i: int|
            0 <= i < p.len() ==> artifact_key_spec(a, v, p)[2 * a.len() + v.len() + 3 + i] == p[i],
{
}

/// On slash-free components the addressing scheme is injective: equal
/// keys come only from equal triples.
pub proof fn lemma_artifact_key_injective(
    a1: Seq<char>,
    v1: Seq<char>,
    p1: Seq<char>,
    a2: Seq<char>,
    v2: Seq<char>,
    p2: Seq<char>,
)
    requires
        valid_component(a1),
        valid_component(v1),
        no_slash(p1),
        valid_component(a2),
        valid_component(v2),
        no_slash(p2),
        artifact_key_spec(a1, v1, p1) == artifact_key_spec(a2, v2, p2),
    ensures
        a1 == a2,
        v1 == v2,
        p1 == p2,
{
    let k = artifact_key_spec(a1, v1, p1);
    lemma_key_index(a1, v1, p1);
    lemma_key_index(a2, v2, p2);

    // The app components have the same length: the shorter one's closing
    // slash would land inside the other app name.
    if a1.len() < a2.len() {
        assert(k[a1.len() as int] == '/');
        assert(k[a1.len() as int] == a2[a1.len() as int]);
        assert(false);
    }
    if a2.len() < a1.len() {
        assert(k[a2.len() as int] == '/');
        assert(k[a2.len() as int] == a1[a2.len() as int]);
        assert(false);
    }
    assert(a1.len() == a2.len());

    // The version components have the same length, by the same argument
    // on the second slash.
    if v1.len() < v2.len() {
        assert(k[a1.len() + 1 + v1.len() as int] == '/');
        assert(k[a2.len() + 1 + v1.len() as int] == v2[v1.len() as int]);
        assert(false);
    }
    if v2.len() < v1.len() {
        assert(k[a2.len() + 1 + v2.len() as int] == '/');
        assert(k[a1.len() + 1 + v2.len() as int] == v1[v2.len() as int]);
        assert(false);
    }
    assert(v1.len() == v2.len());
    assert(p1.len() == p2.len());

    assert forall|i: int| 0 <= i < a1.len() implies a1[i] == a2[i] by {
        assert(k[i] == a1[i]);
        assert(k[i] == a2[i]);
    }
    assert(a1 =~= a2);
    assert forall|i: int| 0 <= i < v1.len() implies v1[i] == v2[i] by {
        assert(k[a1.len() + 1 + i] == v1[i]);
        assert(k[a2.len() + 1 + i] == v2[i]);
    }
    assert(v1 =~= v2);
    assert forall|i: int| 0 <= i < p1.len() implies p1[i] == p2[i] by {
        assert(k[2 * a1.len() + v1.len() + 3 + i] == p1[i]);
        assert(k[2 * a2.len() + v2.len() + 3 + i] == p2[i]);
    }
    assert(p1 =~= p2);
}

} // verus!
