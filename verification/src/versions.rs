//! Version resolver: the lexicographic order on version identifiers,
//! membership in the set of installed versions, the installed-versions
//! listing joined with the remote latest release, and the classification
//! of a release-feed reply.
//!
//! Version identifiers are opaque strings; the listing order is plain
//! lexicographic string order, deliberately not a semantic-version
//! comparison.

use vstd::prelude::*;
use vstd::string::*;
use crate::errors::NetworkError;

verus! {

/// Lexicographic order on character sequences, by scalar value.
pub open spec fn lex_le(a: Seq<char>, b: Seq<char>) -> bool
    decreases a.len(),
{
    if a.len() == 0 {
        true
    } else if b.len() == 0 {
        false
    } else if a[0] != b[0] {
        (a[0] as u32) < (b[0] as u32)
    } else {
        lex_le(a.skip(1), b.skip(1))
    }
}

/// The order is total: any two identifiers compare one way or the other.
pub proof fn lemma_lex_le_total(a: Seq<char>, b: Seq<char>)
    ensures
        lex_le(a, b) || lex_le(b, a),
    decreases a.len(),
{
    if a.len() == 0 {
        assert(lex_le(a, b));
    } else if b.len() == 0 {
        assert(lex_le(b, a));
    } else if a[0] == b[0] {
        lemma_lex_le_total(a.skip(1), b.skip(1));
    } else {
        vstd::utf8::char_u32_cast(a[0], a[0] as u32);
        vstd::utf8::char_u32_cast(b[0], b[0] as u32);
        if (a[0] as u32) < (b[0] as u32) {
            assert(lex_le(a, b));
        } else {
            assert(lex_le(b, a));
        }
    }
}

/// The order is transitive.
pub proof fn lemma_lex_le_trans(a: Seq<char>, b: Seq<char>, c: Seq<char>)
    requires
        lex_le(a, b),
        lex_le(b, c),
    ensures
        lex_le(a, c),
    decreases a.len(),
{
    if a.len() != 0 {
        if a[0] == b[0] && b[0] == c[0] {
            lemma_lex_le_trans(a.skip(1), b.skip(1), c.skip(1));
        }
    }
}

/// The order is antisymmetric: mutual ordering means equality.
pub proof fn lemma_lex_le_antisym(a: Seq<char>, b: Seq<char>)
    requires
        lex_le(a, b),
        lex_le(b, a),
    ensures
        a == b,
    decreases a.len(),
{
    if a.len() == 0 {
        assert(a =~= b);
    } else {
        lemma_lex_le_antisym(a.skip(1), b.skip(1));
        assert(a =~= b) by {
            assert(a.skip(1).len() == a.len() - 1);
            assert(b.skip(1).len() == b.len() - 1);
            assert(a.len() == b.len());
            assert(forall|i: int| 0 < i < a.len() ==> a[i] == a.skip(1)[i - 1] && b[i] == b.skip(1)[i - 1]);
        }
    }
}

/// The order is reflexive.
pub proof fn lemma_lex_le_refl(a: Seq<char>)
    ensures
        lex_le(a, a),
    decreases a.len(),
{
    if a.len() != 0 {
        lemma_lex_le_refl(a.skip(1));
    }
}

/// A listing is sorted when each pair of entries is in lexicographic order.
pub open spec fn sorted_lex(s: Seq<Seq<char>>) -> bool {
    forall|i: int, j: int| 0 <= i < j < s.len() ==> lex_le(s[i], s[j])
}

/// A sorted, duplicate-free listing is determined by its set of entries:
/// two such listings of the same versions are identical. Together with
/// the contract of `list_versions` this pins the offered listing down to
/// exactly one value.
pub proof fn lemma_sorted_unique_listing(s: Seq<Seq<char>>, t: Seq<Seq<char>>)
    requires
        sorted_lex(s),
        s.no_duplicates(),
        sorted_lex(t),
        t.no_duplicates(),
        s.to_set() == t.to_set(),
    ensures
        s == t,
    decreases s.len(),
{
    if s.len() == 0 {
        if t.len() > 0 {
            assert(t.to_set().contains(t[0]));
            assert(s.contains(t[0]));
        }
        assert(s =~= t);
    } else if t.len() == 0 {
        assert(s.to_set().contains(s[0]));
        assert(t.contains(s[0]));
    } else {
        // the heads are both the least entry of the common set
        assert(s.to_set().contains(s[0]));
        assert(t.contains(s[0]));
        let j = choose|j: int| 0 <= j < t.len() && t[j] == s[0];
        if j > 0 {
            assert(lex_le(t[0], t[j]));
        } else {
            lemma_lex_le_refl(t[0]);
        }
        assert(t.to_set().contains(t[0]));
        assert(s.contains(t[0]));
        let k = choose|k: int| 0 <= k < s.len() && s[k] == t[0];
        if k > 0 {
            assert(lex_le(s[0], s[k]));
        } else {
            lemma_lex_le_refl(s[0]);
        }
        lemma_lex_le_antisym(s[0], t[0]);
        // the tails carry the same set: the head occurs only at the front
        let s1 = s.skip(1);
        let t1 = t.skip(1);
        assert forall|x: Seq<char>| s1.contains(x) implies t1.contains(x) by {
            let i = choose|i: int| 0 <= i < s1.len() && s1[i] == x;
            assert(s[i + 1] == x);
            assert(x != s[0]);
            assert(s.to_set().contains(x));
            assert(t.contains(x));
            let m = choose|m: int| 0 <= m < t.len() && t[m] == x;
            assert(m != 0);
            assert(t1[m - 1] == x);
        };
        assert forall|x: Seq<char>| t1.contains(x) implies s1.contains(x) by {
            let i = choose|i: int| 0 <= i < t1.len() && t1[i] == x;
            assert(t[i + 1] == x);
            assert(x != t[0]);
            assert(t.to_set().contains(x));
            assert(s.contains(x));
            let m = choose|m: int| 0 <= m < s.len() && s[m] == x;
            assert(m != 0);
            assert(s1[m - 1] == x);
        };
        assert(s1.to_set() =~= t1.to_set());
        assert(sorted_lex(s1)) by {
            assert(forall|i: int, j: int|
                0 <= i < j < s1.len() ==> s1[i] == s[i + 1] && s1[j] == s[j + 1]);
        }
        assert(sorted_lex(t1)) by {
            assert(forall|i: int, j: int|
                0 <= i < j < t1.len() ==> t1[i] == t[i + 1] && t1[j] == t[j + 1]);
        }
        assert(s1.no_duplicates()) by {
            assert(forall|i: int, j: int|
                0 <= i < j < s1.len() ==> s1[i] == s[i + 1] && s1[j] == s[j + 1]);
        }
        assert(t1.no_duplicates()) by {
            assert(forall|i: int, j: int|
                0 <= i < j < t1.len() ==> t1[i] == t[i + 1] && t1[j] == t[j + 1]);
        }
        lemma_sorted_unique_listing(s1, t1);
        assert(s =~= t) by {
            assert(forall|i: int| 0 < i < s.len() ==> s[i] == s1[i - 1] && t[i] == t1[i - 1]);
        }
    }
}

/// Character-by-character string equality.
pub fn str_eq(a: &str, b: &str) -> (r: bool)
    ensures
        r == (a@ == b@),
{
    let la = a.unicode_len();
    let lb = b.unicode_len();
    if la != lb {
        return false;
    }
    let mut i: usize = 0;
    while i < la
        invariant
            i <= la,
            la == a@.len(),
            lb == b@.len(),
            la == lb,
            forall|j: int| 0 <= j < i ==> a@[j] == b@[j],
        decreases la - i,
    {
        if a.get_char(i) != b.get_char(i) {
            return false;
        }
        i += 1;
    }
    proof {
        assert(a@ =~= b@);
    }
    true
}

/// Character-by-character lexicographic comparison.
pub fn str_le(a: &str, b: &str) -> (r: bool)
    ensures
        r == lex_le(a@, b@),
{
    let la = a.unicode_len();
    let lb = b.unicode_len();
    let mut i: usize = 0;
    proof {
        assert(a@.skip(0) =~= a@);
        assert(b@.skip(0) =~= b@);
    }
    loop
        invariant
            i <= la,
            i <= lb,
            la == a@.len(),
            lb == b@.len(),
            lex_le(a@, b@) == lex_le(a@.skip(i as int), b@.skip(i as int)),
        decreases la - i,
    {
        if i == la {
            proof {
                assert(a@.skip(i as int).len() == 0);
            }
            return true;
        }
        if i == lb {
            proof {
                assert(b@.skip(i as int).len() == 0);
                assert(a@.skip(i as int).len() > 0);
            }
            return false;
        }
        let ca = a.get_char(i);
        let cb = b.get_char(i);
        proof {
            assert(a@.skip(i as int)[0] == a@[i as int]);
            assert(b@.skip(i as int)[0] == b@[i as int]);
        }
        if ca != cb {
            return (ca as u32) < (cb as u32);
        }
        proof {
            assert(a@.skip(i as int).skip(1) =~= a@.skip(i as int + 1));
            assert(b@.skip(i as int).skip(1) =~= b@.skip(i as int + 1));
        }
        i += 1;
    }
}

/// Whether `v` names an entry of `list`.
pub fn contains_version(list: &Vec<String>, v: &str) -> (r: bool)
    ensures
        r == list.deep_view().contains(v@),
{
    let mut i: usize = 0;
    while i < list.len()
        invariant
            i <= list.len(),
            forall|j: int| 0 <= j < i ==> list.deep_view()[j] != v@,
        decreases list.len() - i,
    {
        if str_eq(list[i].as_str(), v) {
            proof {
                assert(list.deep_view()[i as int] == v@);
            }
            return true;
        }
        i += 1;
    }
    proof {
        assert(!list.deep_view().contains(v@)) by {
            if list.deep_view().contains(v@) {
                let j = choose|j: int|
                    0 <= j < list.deep_view().len() && list.deep_view()[j] == v@;
            }
        }
    }
    false
}

/// An entry's presence in the repository listing is the sole source of
/// truth for "is this version installed"; an empty listing (absent or
/// empty repository directory) makes every version uninstalled.
pub fn is_installed(installed: &Vec<String>, version: &String) -> (r: bool)
    ensures
        r == installed.deep_view().contains(version@),
{
    contains_version(installed, version.as_str())
}

/// The latest release is installed exactly when its identifier names an
/// installed entry.
pub fn is_latest_installed(installed: &Vec<String>, latest: &String) -> (r: bool)
    ensures
        r == installed.deep_view().contains(latest@),
{
    contains_version(installed, latest.as_str())
}

proof fn lemma_insert_set(s: Seq<Seq<char>>, i: int, v: Seq<char>)
    requires
        0 <= i <= s.len(),
    ensures
        s.insert(i, v).to_set() == s.to_set().insert(v),
{
    let t = s.insert(i, v);
    s.insert_ensures(i, v);
    assert forall|x: Seq<char>| t.contains(x) implies s.contains(x) || x == v by {
        let k = choose|k: int| 0 <= k < t.len() && t[k] == x;
        if k < i {
            assert(s[k] == x);
        } else if k > i {
            assert(s[k - 1] == x);
        }
    };
    assert forall|x: Seq<char>| s.contains(x) || x == v implies t.contains(x) by {
        if x == v {
            assert(t[i] == x);
        } else {
            let k = choose|k: int| 0 <= k < s.len() && s[k] == x;
            if k < i {
                assert(t[k] == x);
            } else {
                assert(t[k + 1] == x);
            }
        }
    };
    assert(t.to_set() =~= s.to_set().insert(v));
}

fn insertion_point(list: &Vec<String>, v: &str) -> (i: usize)
    ensures
        i <= list@.len(),
        forall|j: int| 0 <= j < i ==> !lex_le(v@, list.deep_view()[j]),
        i < list@.len() ==> lex_le(v@, list.deep_view()[i as int]),
{
    let mut i: usize = 0;
    while i < list.len()
        invariant
            i <= list.len(),
            forall|j: int| 0 <= j < i ==> !lex_le(v@, list.deep_view()[j]),
        decreases list.len() - i,
    {
        if str_le(v, list[i].as_str()) {
            proof {
                assert(list.deep_view()[i as int] == list@[i as int]@);
            }
            return i;
        }
        proof {
            assert(list.deep_view()[i as int] == list@[i as int]@);
        }
        i += 1;
    }
    i
}

/// Insert `v` into a sorted, duplicate-free listing, keeping it sorted
/// and duplicate-free; the listing's set of entries gains exactly `v`.
pub fn insert_sorted_unique(list: &mut Vec<String>, v: String)
    requires
        sorted_lex(old(list).deep_view()),
        old(list).deep_view().no_duplicates(),
    ensures
        sorted_lex(final(list).deep_view()),
        final(list).deep_view().no_duplicates(),
        final(list).deep_view().to_set() == old(list).deep_view().to_set().insert(v@),
{
    let ghost dv = old(list).deep_view();
    if contains_version(list, v.as_str()) {
        proof {
            assert(dv.to_set() =~= dv.to_set().insert(v@));
        }
        return;
    }
    let i = insertion_point(list, v.as_str());
    list.insert(i, v);
    proof {
        let dv2 = list.deep_view();
        assert(dv2 =~= dv.insert(i as int, v@)) by {
            assert(list@ == old(list)@.insert(i as int, v));
            old(list)@.insert_ensures(i as int, v);
        }
        dv.insert_ensures(i as int, v@);
        // sortedness of the widened listing
        assert forall|m: int, n: int| 0 <= m < n < dv2.len() implies lex_le(dv2[m], dv2[n]) by {
            if n < i {
                assert(lex_le(dv[m], dv[n]));
            } else if m < i && n == i {
                lemma_lex_le_total(v@, dv[m]);
            } else if m < i && n > i {
                assert(lex_le(dv[m], dv[n - 1]));
            } else if m == i {
                // every earlier entry was passed over, so v precedes dv[i..]
                if i < dv.len() {
                    assert(lex_le(v@, dv[i as int]));
                    if n - 1 > i {
                        assert(lex_le(dv[i as int], dv[n - 1]));
                        lemma_lex_le_trans(v@, dv[i as int], dv[n - 1]);
                    }
                }
            } else {
                assert(lex_le(dv[m - 1], dv[n - 1]));
            }
        };
        // no duplicates: v was absent, the rest was duplicate-free
        assert forall|m: int, n: int| 0 <= m < n < dv2.len() implies dv2[m] != dv2[n] by {
            if m == i {
                assert(dv2[n] == dv[n - 1]);
                assert(dv.contains(dv[n - 1]));
            } else if n == i {
                assert(dv2[m] == dv[m]);
                assert(dv.contains(dv[m]));
            }
        };
        lemma_insert_set(dv, i as int, v@);
    }
}

/// The version listing offered to the user: every installed version,
/// joined with the remote latest release, in lexicographic order and
/// without duplicates.
pub fn list_versions(installed: &Vec<String>, latest: &String) -> (r: Vec<String>)
    ensures
        sorted_lex(r.deep_view()),
        r.deep_view().no_duplicates(),
        r.deep_view().to_set() == installed.deep_view().to_set().insert(latest@),
{
    let ghost iv = installed.deep_view();
    let mut out: Vec<String> = Vec::new();
    proof {
        assert(out.deep_view().to_set() =~= iv.subrange(0, 0).to_set());
    }
    let mut k: usize = 0;
    while k < installed.len()
        invariant
            k <= installed.len(),
            iv == installed.deep_view(),
            iv.len() == installed.len(),
            sorted_lex(out.deep_view()),
            out.deep_view().no_duplicates(),
            out.deep_view().to_set() == iv.subrange(0, k as int).to_set(),
        decreases installed.len() - k,
    {
        let version = installed[k].clone();
        proof {
            assert(version@ == iv[k as int]);
        }
        insert_sorted_unique(&mut out, version);
        proof {
            let pre = iv.subrange(0, k as int);
            let post = iv.subrange(0, k as int + 1);
            assert(post =~= pre.insert(k as int, iv[k as int]));
            lemma_insert_set(pre, k as int, iv[k as int]);
        }
        k += 1;
    }
    proof {
        assert(iv.subrange(0, installed.len() as int) =~= iv);
    }
    insert_sorted_unique(&mut out, latest.clone());
    out
}

/// What the remote release feed answered, reduced to plain values: either
/// the endpoint was unreachable, or it replied with a status code and an
/// optional version identifier extracted from the body.
pub enum FeedReply {
    Unreachable,
    Reply { status: u16, version: Option<String> },
}

/// A reply status counts as success in the conventional range.
pub open spec fn success_status(status: u16) -> bool {
    200 <= status < 300
}

/// Classify one release-feed reply into the resolved latest version or a
/// network error: connectivity failure, non-success response and
/// malformed response are distinguished, and there is deliberately no
/// local fallback — "latest" is a remote fact.
pub fn resolve_latest(reply: FeedReply) -> (r: Result<String, NetworkError>)
    ensures
        match reply {
            FeedReply::Unreachable => r == Err::<String, NetworkError>(NetworkError::Connectivity),
            FeedReply::Reply { status, version } => {
                if !success_status(status) {
                    r == Err::<String, NetworkError>(NetworkError::NonSuccess)
                } else {
                    match version {
                        Option::None => r == Err::<String, NetworkError>(NetworkError::Malformed),
                        Option::Some(v) => r matches Ok(out) && out@ == v@,
                    }
                }
            },
        },
{
    match reply {
        FeedReply::Unreachable => Err(NetworkError::Connectivity),
        FeedReply::Reply { status, version } => {
            if !(200 <= status && status < 300) {
                Err(NetworkError::NonSuccess)
            } else {
                match version {
                    Option::None => Err(NetworkError::Malformed),
                    Option::Some(v) => Ok(v),
                }
            }
        },
    }
}

} // verus!
