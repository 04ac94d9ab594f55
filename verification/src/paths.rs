//! Path resolver: deterministic, side-effect-free mapping from the base
//! data directory (and, where applicable, a version identifier) to the
//! canonical location of each on-disk artifact.
//!
//! Layout under the base directory:
//! - `repository/` holds one entry per installed version, named by its
//!   version identifier; the entry is the version's executable artifact.
//! - the shared icon and desktop-entry files sit directly under the base
//!   directory; their fallback copies live under `cache/`, where the
//!   desktop-entry cache holds the raw template text.

use vstd::prelude::*;
use vstd::string::*;

verus! {

/// The repository directory that holds one entry per installed version.
pub open spec fn repository_dir_spec(base: Seq<char>) -> Seq<char> {
    base + "/repository"@
}

/// A version's installed executable artifact.
pub open spec fn appimage_path_spec(base: Seq<char>, version: Seq<char>) -> Seq<char> {
    base + "/repository/"@ + version
}

/// The shared icon, as installed.
pub open spec fn icon_path_spec(base: Seq<char>) -> Seq<char> {
    base + "/osu-lazer.png"@
}

/// The fallback copy of the shared icon.
pub open spec fn icon_cache_path_spec(base: Seq<char>) -> Seq<char> {
    base + "/cache/osu-lazer.png"@
}

/// The shared desktop-integration file, as installed.
pub open spec fn desktop_path_spec(base: Seq<char>) -> Seq<char> {
    base + "/osu-lazer.desktop"@
}

/// The cached desktop-entry template, used when the live fetch fails.
pub open spec fn desktop_cache_path_spec(base: Seq<char>) -> Seq<char> {
    base + "/cache/osu-lazer.desktop"@
}

pub fn repository_dir(base: &str) -> (r: String)
    ensures
        r@ == repository_dir_spec(base@),
{
    let mut s = base.to_owned();
    s.append("/repository");
    s
}

pub fn appimage_path(base: &str, version: &str) -> (r: String)
    ensures
        r@ == appimage_path_spec(base@, version@),
{
    let mut s = base.to_owned();
    s.append("/repository/");
    s.append(version);
    s
}

pub fn icon_path(base: &str) -> (r: String)
    ensures
        r@ == icon_path_spec(base@),
{
    let mut s = base.to_owned();
    s.append("/osu-lazer.png");
    s
}

pub fn icon_cache_path(base: &str) -> (r: String)
    ensures
        r@ == icon_cache_path_spec(base@),
{
    let mut s = base.to_owned();
    s.append("/cache/osu-lazer.png");
    s
}

pub fn desktop_path(base: &str) -> (r: String)
    ensures
        r@ == desktop_path_spec(base@),
{
    let mut s = base.to_owned();
    s.append("/osu-lazer.desktop");
    s
}

pub fn desktop_cache_path(base: &str) -> (r: String)
    ensures
        r@ == desktop_cache_path_spec(base@),
{
    let mut s = base.to_owned();
    s.append("/cache/osu-lazer.desktop");
    s
}

/// Two versions resolve to the same artifact path only if they are the
/// same identifier: the repository layout cannot alias distinct versions.
pub proof fn lemma_appimage_path_injective(base: Seq<char>, v1: Seq<char>, v2: Seq<char>)
    requires
        appimage_path_spec(base, v1) == appimage_path_spec(base, v2),
    ensures
        v1 == v2,
{
    let prefix = base + "/repository/"@;
    let p1 = prefix + v1;
    let p2 = prefix + v2;
    assert(p1.len() == prefix.len() + v1.len());
    assert(p2.len() == prefix.len() + v2.len());
    assert(v1 =~= p1.subrange(prefix.len() as int, p1.len() as int));
    assert(v2 =~= p2.subrange(prefix.len() as int, p2.len() as int));
}

} // verus!
