//! Install orchestrator and the on-disk state it governs.
//!
//! `Disk` holds, as plain values, everything the manager persists: the
//! repository of installed versions, the shared icon and its fallback
//! copy, the rendered desktop entry, the cached desktop-entry template,
//! and the default-version selection. An install runs three ordered
//! stages — executable, icon, desktop entry — each gating the next only
//! on fatal failure, with the fallback chain of the latter two stages
//! and the atomicity of every fetch captured in the stage contracts.

use vstd::prelude::*;
use crate::errors::{FetchError, InstallError};
use crate::template::render_spec;
use crate::versions::str_eq;

verus! {

/// One installed version: the repository entry named by the version
/// identifier, holding that version's executable artifact.
#[derive(Clone, Debug, PartialEq, Eq)]
pub struct Entry {
    pub name: String,
    pub data: Vec<u8>,
}

/// Mathematical image of an `Entry`.
#[verifier::ext_equal]
pub struct EntryView {
    pub name: Seq<char>,
    pub data: Seq<u8>,
}

impl View for Entry {
    type V = EntryView;

    open spec fn view(&self) -> EntryView {
        EntryView { name: self.name@, data: self.data@ }
    }
}

impl DeepView for Entry {
    type V = EntryView;

    open spec fn deep_view(&self) -> EntryView {
        self@
    }
}

/// The persisted state the manager owns, reduced to plain values.
#[derive(Clone, Debug, PartialEq, Eq)]
pub struct Disk {
    /// One entry per installed version, named by its identifier; an
    /// entry's existence is the sole source of truth for "installed".
    pub repository: Vec<Entry>,
    /// The shared icon at its install path, one for all versions.
    pub icon: Option<Vec<u8>>,
    /// The fallback copy of the icon at its cache path.
    pub icon_cache: Option<Vec<u8>>,
    /// The rendered desktop entry at its install path.
    pub desktop: Option<String>,
    /// The cached desktop-entry template, used when the live fetch fails.
    pub desktop_cache: Option<String>,
    /// The persisted default-version selection; advisory, and allowed to
    /// name a version that is not installed.
    pub default_version: Option<String>,
}

/// Mathematical image of a `Disk`.
#[verifier::ext_equal]
pub struct DiskView {
    pub repository: Seq<EntryView>,
    pub icon: Option<Seq<u8>>,
    pub icon_cache: Option<Seq<u8>>,
    pub desktop: Option<Seq<char>>,
    pub desktop_cache: Option<Seq<char>>,
    pub default_version: Option<Seq<char>>,
}

impl View for Disk {
    type V = DiskView;

    open spec fn view(&self) -> DiskView {
        DiskView {
            repository: self.repository.deep_view(),
            icon: self.icon.deep_view(),
            icon_cache: self.icon_cache.deep_view(),
            desktop: self.desktop.deep_view(),
            desktop_cache: self.desktop_cache.deep_view(),
            default_version: self.default_version.deep_view(),
        }
    }
}

impl DiskView {
    /// A version is installed exactly when an entry bears its name.
    pub open spec fn installed(self, name: Seq<char>) -> bool {
        exists|i: int| 0 <= i < self.repository.len() && self.repository[i].name == name
    }

    /// Entry names never repeat: each installed version owns exactly one
    /// repository entry.
    pub open spec fn wf(self) -> bool {
        forall|i: int, j: int|
            0 <= i < j < self.repository.len() ==> self.repository[i].name != self.repository[j].name
    }

    /// The installed version identifiers, in repository order.
    pub open spec fn names(self) -> Seq<Seq<char>> {
        Seq::new(self.repository.len() as nat, |i: int| self.repository[i].name)
    }
}

/// What one byte-artifact fetch yielded, at the specification level.
pub open spec fn bytes_outcome(r: Result<Vec<u8>, FetchError>) -> Result<Seq<u8>, FetchError> {
    match r {
        Ok(d) => Ok(d@),
        Err(e) => Err(e),
    }
}

/// What one optional byte-artifact fetch yielded, at the specification level.
pub open spec fn opt_bytes_outcome(r: Option<Result<Vec<u8>, FetchError>>) -> Option<
    Result<Seq<u8>, FetchError>,
> {
    match r {
        Some(x) => Some(bytes_outcome(x)),
        None => None,
    }
}

/// What one text fetch yielded, at the specification level.
pub open spec fn text_outcome(r: Result<String, FetchError>) -> Result<Seq<char>, FetchError> {
    match r {
        Ok(t) => Ok(t@),
        Err(e) => Err(e),
    }
}

/// Effect of the executable stage. An already installed version is never
/// re-fetched — the entry's existence means "installed" — and a fetched
/// artifact is added as one whole entry. Stage success, including the
/// skip, moves the default-version pointer to this version; stage
/// failure changes nothing and aborts the install.
pub open spec fn appimage_stage_spec(
    d: DiskView,
    version: Seq<char>,
    fetched: Option<Result<Seq<u8>, FetchError>>,
) -> (DiskView, Result<(), FetchError>) {
    if d.installed(version) {
        (DiskView { default_version: Some(version), ..d }, Ok(()))
    } else {
        match fetched {
            Some(Ok(data)) => (
                (DiskView {
                    repository: d.repository.push(EntryView { name: version, data }),
                    default_version: Some(version),
                    ..d
                }),
                Ok(()),
            ),
            Some(Err(e)) => (d, Err(e)),
            None => (d, Err(FetchError::Interrupted)),
        }
    }
}

/// Effect of the icon stage. A successful fetch refreshes both the
/// installed icon and its cache copy. On failure, an already installed
/// icon is kept; otherwise a cached copy is promoted to the install
/// path; with neither, the stage fails and aborts the install.
pub open spec fn icon_stage_spec(d: DiskView, fetched: Result<Seq<u8>, FetchError>) -> (
    DiskView,
    Result<(), InstallError>,
) {
    match fetched {
        Ok(data) => ((DiskView { icon: Some(data), icon_cache: Some(data), ..d }), Ok(())),
        Err(_) => {
            if d.icon is Some {
                (d, Ok(()))
            } else {
                match d.icon_cache {
                    Some(c) => ((DiskView { icon: Some(c), ..d }), Ok(())),
                    None => (d, Err(InstallError::IconUnavailable)),
                }
            }
        },
    }
}

/// Effect of the desktop-entry stage. The entry is regenerated on every
/// install, because it bakes in this version's executable path. A
/// successful fetch delivers the template, which is cached and rendered;
/// on failure the cached template is rendered instead; with no cached
/// template the stage fails and aborts the install.
pub open spec fn desktop_stage_spec(
    d: DiskView,
    fetched: Result<Seq<char>, FetchError>,
    icon_path: Seq<char>,
    executable_path: Seq<char>,
) -> (DiskView, Result<(), InstallError>) {
    match fetched {
        Ok(t) => (
            (DiskView {
                desktop: Some(render_spec(t, icon_path, executable_path)),
                desktop_cache: Some(t),
                ..d
            }),
            Ok(()),
        ),
        Err(_) => match d.desktop_cache {
            Some(t) => (
                (DiskView { desktop: Some(render_spec(t, icon_path, executable_path)), ..d }),
                Ok(()),
            ),
            None => (d, Err(InstallError::TemplateUnavailable)),
        },
    }
}

/// Effect of a whole install: the three stages in order, each gating the
/// next only on fatal failure.
pub open spec fn install_spec(
    d: DiskView,
    version: Seq<char>,
    exe_fetched: Option<Result<Seq<u8>, FetchError>>,
    icon_fetched: Result<Seq<u8>, FetchError>,
    desktop_fetched: Result<Seq<char>, FetchError>,
    icon_path: Seq<char>,
    executable_path: Seq<char>,
) -> (DiskView, Result<(), InstallError>) {
    let (d1, r1) = appimage_stage_spec(d, version, exe_fetched);
    match r1 {
        Err(e) => (d1, Err(InstallError::Executable(e))),
        Ok(_) => {
            let (d2, r2) = icon_stage_spec(d1, icon_fetched);
            match r2 {
                Err(e2) => (d2, Err(e2)),
                Ok(_) => desktop_stage_spec(d2, desktop_fetched, icon_path, executable_path),
            }
        },
    }
}

fn copy_bytes(src: &Vec<u8>) -> (r: Vec<u8>)
    ensures
        r@ == src@,
{
    let mut out: Vec<u8> = Vec::new();
    let mut i: usize = 0;
    while i < src.len()
        invariant
            i <= src@.len(),
            out@ == src@.subrange(0, i as int),
        decreases src@.len() - i,
    {
        out.push(src[i]);
        proof {
            assert(src@.subrange(0, i as int).push(src@[i as int]) =~= src@.subrange(
                0,
                i as int + 1,
            ));
        }
        i += 1;
    }
    proof {
        assert(src@.subrange(0, src@.len() as int) =~= src@);
    }
    out
}

impl Disk {
    /// A fresh state: nothing installed, no artifacts, no selection.
    pub fn new() -> (d: Disk)
        ensures
            d@.repository.len() == 0,
            d@.icon is None,
            d@.icon_cache is None,
            d@.desktop is None,
            d@.desktop_cache is None,
            d@.default_version is None,
            d@.wf(),
    {
        Disk {
            repository: Vec::new(),
            icon: None,
            icon_cache: None,
            desktop: None,
            desktop_cache: None,
            default_version: None,
        }
    }

    /// Whether an entry of this state bears the version's name.
    pub fn is_installed(&self, version: &String) -> (r: bool)
        ensures
            r == self@.installed(version@),
    {
        let mut i: usize = 0;
        while i < self.repository.len()
            invariant
                i <= self.repository@.len(),
                forall|j: int| 0 <= j < i ==> self@.repository[j].name != version@,
            decreases self.repository@.len() - i,
        {
            if str_eq(self.repository[i].name.as_str(), version.as_str()) {
                proof {
                    assert(self@.repository[i as int].name == version@);
                }
                return true;
            }
            i += 1;
        }
        proof {
            if self@.installed(version@) {
                let j = choose|j: int|
                    0 <= j < self@.repository.len() && self@.repository[j].name == version@;
            }
        }
        false
    }

    /// The installed version identifiers, in repository order.
    pub fn installed_names(&self) -> (r: Vec<String>)
        ensures
            r.deep_view() == self@.names(),
    {
        let mut out: Vec<String> = Vec::new();
        let mut i: usize = 0;
        while i < self.repository.len()
            invariant
                i <= self.repository@.len(),
                out@.len() == i,
                forall|j: int| 0 <= j < i ==> out.deep_view()[j] == self@.repository[j].name,
            decreases self.repository@.len() - i,
        {
            let name_i = self.repository[i].name.clone();
            proof {
                assert(name_i@ == self@.repository[i as int].name);
            }
            let ghost pre = out.deep_view();
            out.push(name_i);
            proof {
                assert(out.deep_view() =~= pre.push(self@.repository[i as int].name));
            }
            i += 1;
        }
        proof {
            assert(out.deep_view() =~= self@.names());
        }
        out
    }

    /// The version listing offered to the user for this state: every
    /// installed version joined with the remote latest release, in
    /// lexicographic order and without duplicates.
    pub fn list_versions(&self, latest: &String) -> (r: Vec<String>)
        ensures
            crate::versions::sorted_lex(r.deep_view()),
            r.deep_view().no_duplicates(),
            r.deep_view().to_set() == self@.names().to_set().insert(latest@),
    {
        let names = self.installed_names();
        crate::versions::list_versions(&names, latest)
    }

    /// Move the default-version pointer; repeated writes of the same
    /// value are idempotent and harmless.
    pub fn set_default(&mut self, version: &String)
        ensures
            final(self)@ == (DiskView { default_version: Some(version@), ..old(self)@ }),
    {
        self.default_version = Some(version.clone());
        proof {
            assert(final(self)@ =~= (DiskView {
                default_version: Some(version@),
                ..old(self)@
            }));
        }
    }

    /// The executable stage of an install. The caller fetches only when
    /// the version is absent and hands the outcome in; an already
    /// installed version is recognized without any transfer.
    pub fn appimage_stage(&mut self, version: &String, fetched: Option<Result<Vec<u8>, FetchError>>) -> (r:
        Result<(), FetchError>)
        requires
            !old(self)@.installed(version@) ==> fetched is Some,
        ensures
            ({
                let (dv, rv) = appimage_stage_spec(
                    old(self)@,
                    version@,
                    opt_bytes_outcome(fetched),
                );
                final(self)@ == dv && r == rv
            }),
    {
        if self.is_installed(version) {
            self.default_version = Some(version.clone());
            proof {
                assert(final(self)@ =~= (DiskView {
                    default_version: Some(version@),
                    ..old(self)@
                }));
            }
            return Ok(());
        }
        match fetched {
            Some(Ok(data)) => {
                let entry = Entry { name: version.clone(), data };
                let ghost ev = entry@;
                self.repository.push(entry);
                self.default_version = Some(version.clone());
                proof {
                    assert(self.repository.deep_view() =~= old(self)@.repository.push(ev));
                    assert(final(self)@ =~= (DiskView {
                        repository: old(self)@.repository.push(ev),
                        default_version: Some(version@),
                        ..old(self)@
                    }));
                }
                Ok(())
            },
            Some(Err(e)) => Err(e),
            None => Err(FetchError::Interrupted),
        }
    }

    /// The icon stage of an install: refresh on success, otherwise keep
    /// the installed icon or promote the cached copy, otherwise fail.
    pub fn icon_stage(&mut self, fetched: Result<Vec<u8>, FetchError>) -> (r: Result<
        (),
        InstallError,
    >)
        ensures
            ({
                let (dv, rv) = icon_stage_spec(old(self)@, bytes_outcome(fetched));
                final(self)@ == dv && r == rv
            }),
    {
        match fetched {
            Ok(data) => {
                self.icon_cache = Some(copy_bytes(&data));
                self.icon = Some(data);
                proof {
                    assert(final(self)@ =~= icon_stage_spec(
                        old(self)@,
                        bytes_outcome(fetched),
                    ).0);
                }
                Ok(())
            },
            Err(_) => {
                if self.icon.is_some() {
                    Ok(())
                } else {
                    match &self.icon_cache {
                        Some(c) => {
                            let promoted = copy_bytes(c);
                            self.icon = Some(promoted);
                            proof {
                                assert(final(self)@ =~= icon_stage_spec(
                                    old(self)@,
                                    bytes_outcome(fetched),
                                ).0);
                            }
                            Ok(())
                        },
                        None => Err(InstallError::IconUnavailable),
                    }
                }
            },
        }
    }

    /// The desktop-entry stage of an install: cache and render the
    /// fetched template, or render the cached one, or fail.
    pub fn desktop_stage(
        &mut self,
        fetched: Result<String, FetchError>,
        icon_path: &str,
        executable_path: &str,
    ) -> (r: Result<(), InstallError>)
        ensures
            ({
                let (dv, rv) = desktop_stage_spec(
                    old(self)@,
                    text_outcome(fetched),
                    icon_path@,
                    executable_path@,
                );
                final(self)@ == dv && r == rv
            }),
    {
        match fetched {
            Ok(t) => {
                let rendered = crate::template::render(t.as_str(), icon_path, executable_path);
                self.desktop = Some(rendered);
                self.desktop_cache = Some(t);
                proof {
                    assert(final(self)@ =~= desktop_stage_spec(
                        old(self)@,
                        text_outcome(fetched),
                        icon_path@,
                        executable_path@,
                    ).0);
                }
                Ok(())
            },
            Err(_) => {
                match &self.desktop_cache {
                    Some(t) => {
                        let rendered = crate::template::render(
                            t.as_str(),
                            icon_path,
                            executable_path,
                        );
                        self.desktop = Some(rendered);
                        proof {
                            assert(final(self)@ =~= desktop_stage_spec(
                                old(self)@,
                                text_outcome(fetched),
                                icon_path@,
                                executable_path@,
                            ).0);
                        }
                        Ok(())
                    },
                    None => Err(InstallError::TemplateUnavailable),
                }
            },
        }
    }

    /// Install one version: fetch its executable artifact (skipped when
    /// already installed), then the shared icon, then the desktop entry,
    /// each later stage falling back to local state before failing. The
    /// default-version pointer moves to the version as soon as the
    /// executable stage succeeds.
    pub fn install(
        &mut self,
        version: &String,
        exe_fetched: Option<Result<Vec<u8>, FetchError>>,
        icon_fetched: Result<Vec<u8>, FetchError>,
        desktop_fetched: Result<String, FetchError>,
        icon_path: &str,
        executable_path: &str,
    ) -> (r: Result<(), InstallError>)
        requires
            !old(self)@.installed(version@) ==> exe_fetched is Some,
        ensures
            ({
                let (dv, rv) = install_spec(
                    old(self)@,
                    version@,
                    opt_bytes_outcome(exe_fetched),
                    bytes_outcome(icon_fetched),
                    text_outcome(desktop_fetched),
                    icon_path@,
                    executable_path@,
                );
                final(self)@ == dv && r == rv
            }),
    {
        match self.appimage_stage(version, exe_fetched) {
            Err(e) => {
                return Err(InstallError::Executable(e));
            },
            Ok(_) => {},
        }
        match self.icon_stage(icon_fetched) {
            Err(e) => {
                return Err(e);
            },
            Ok(_) => {},
        }
        self.desktop_stage(desktop_fetched, icon_path, executable_path)
    }
}

/// Well-formedness is an invariant of install: however the three fetches
/// turn out, entry names never come to repeat, because the executable
/// stage only adds an entry for a version that was absent and the other
/// stages leave the repository untouched.
pub proof fn lemma_install_preserves_wf(
    d: DiskView,
    version: Seq<char>,
    exe_fetched: Option<Result<Seq<u8>, FetchError>>,
    icon_fetched: Result<Seq<u8>, FetchError>,
    desktop_fetched: Result<Seq<char>, FetchError>,
    icon_path: Seq<char>,
    executable_path: Seq<char>,
)
    requires
        d.wf(),
    ensures
        install_spec(
            d,
            version,
            exe_fetched,
            icon_fetched,
            desktop_fetched,
            icon_path,
            executable_path,
        ).0.wf(),
{
    let (d1, r1) = appimage_stage_spec(d, version, exe_fetched);
    if !d.installed(version) {
        match exe_fetched {
            Some(Ok(data)) => {
                let rep = d.repository.push(EntryView { name: version, data });
                assert forall|i: int, j: int|
                    0 <= i < j < rep.len() implies rep[i].name != rep[j].name by {
                    if j == rep.len() - 1 {
                        assert(rep[i] == d.repository[i]);
                        assert(rep[j].name == version);
                    } else {
                        assert(rep[i] == d.repository[i]);
                        assert(rep[j] == d.repository[j]);
                    }
                };
            },
            _ => {},
        }
    }
    assert(d1.wf());
    let (d2, r2) = icon_stage_spec(d1, icon_fetched);
    assert(d2.repository == d1.repository);
    let (d3, r3) = desktop_stage_spec(d2, desktop_fetched, icon_path, executable_path);
    assert(d3.repository == d2.repository);
}

/// Install idempotence: running the same install again, with the same
/// fetch outcomes and no intervening state change, reproduces exactly
/// the state and the result of the first run — repository, icon and
/// desktop files stay byte-identical, with no duplicate or partial
/// artifacts.
pub proof fn lemma_install_idempotent(
    d: DiskView,
    version: Seq<char>,
    exe_fetched: Option<Result<Seq<u8>, FetchError>>,
    icon_fetched: Result<Seq<u8>, FetchError>,
    desktop_fetched: Result<Seq<char>, FetchError>,
    icon_path: Seq<char>,
    executable_path: Seq<char>,
)
    ensures
        ({
            let (d1, r1) = install_spec(
                d,
                version,
                exe_fetched,
                icon_fetched,
                desktop_fetched,
                icon_path,
                executable_path,
            );
            let (d2, r2) = install_spec(
                d1,
                version,
                exe_fetched,
                icon_fetched,
                desktop_fetched,
                icon_path,
                executable_path,
            );
            d2 == d1 && r2 == r1
        }),
{
    let (e1, s1) = appimage_stage_spec(d, version, exe_fetched);
    let (d1, r1) = install_spec(
        d,
        version,
        exe_fetched,
        icon_fetched,
        desktop_fetched,
        icon_path,
        executable_path,
    );
    let (d2, r2) = install_spec(
        d1,
        version,
        exe_fetched,
        icon_fetched,
        desktop_fetched,
        icon_path,
        executable_path,
    );
    if s1 is Ok {
        // after a successful executable stage the version is installed and
        // the default pointer already names it, whatever the later stages
        // did, so the second run's executable stage is a pure skip
        if d.installed(version) {
            let w = choose|i: int|
                0 <= i < d.repository.len() && d.repository[i].name == version;
            assert(e1.repository[w].name == version);
        } else {
            let n = d.repository.len() as int;
            assert(e1.repository[n].name == version);
        }
        let (f2, t2) = icon_stage_spec(e1, icon_fetched);
        assert(f2.repository == e1.repository);
        assert(f2.default_version == e1.default_version);
        let (g3, u3) = desktop_stage_spec(f2, desktop_fetched, icon_path, executable_path);
        assert(g3.repository == e1.repository);
        assert(g3.default_version == e1.default_version);
        assert(d1.repository == e1.repository);
        assert(d1.default_version == Some(version));
        assert(d1.installed(version)) by {
            if d.installed(version) {
                let w = choose|i: int|
                    0 <= i < d.repository.len() && d.repository[i].name == version;
                assert(d1.repository[w].name == version);
            } else {
                assert(d1.repository[d.repository.len() as int].name == version);
            }
        }
        let (e2, s2) = appimage_stage_spec(d1, version, exe_fetched);
        assert(e2 =~= d1);
        if t2 is Ok {
            let (f3, t3) = icon_stage_spec(e2, icon_fetched);
            match icon_fetched {
                Ok(data) => {
                    assert(d1.icon == Some(data) && d1.icon_cache == Some(data));
                    assert(f3 =~= d1);
                },
                Err(_) => {
                    assert(e1.icon is Some ==> f2 == e1);
                    assert(d1.icon == f2.icon);
                    assert(f3 =~= d1);
                },
            }
            assert(t3 is Ok);
            let (g4, u4) = desktop_stage_spec(f3, desktop_fetched, icon_path, executable_path);
            match desktop_fetched {
                Ok(t) => {
                    assert(g4 =~= d1);
                },
                Err(_) => {
                    match f2.desktop_cache {
                        Some(t) => {
                            assert(g4 =~= d1);
                        },
                        None => {
                            assert(u3 is Err && d1 == f2);
                            assert(g4 =~= d1 && u4 is Err);
                        },
                    }
                },
            }
            assert(d2 =~= d1);
            assert(r2 == r1);
        } else {
            // the first icon stage failed: no icon existed and no cache;
            // nothing later changed that, so the second run fails alike
            assert(d1 == f2 && f2 == e1);
            assert(d1.icon is None && d1.icon_cache is None);
            assert(d2 =~= d1);
            assert(r2 == r1);
        }
    } else {
        // a failed executable stage changes nothing at all
        assert(d1 =~= d);
        assert(d2 =~= d1);
        assert(r2 == r1);
    }
}

/// Fetch atomicity at the install level: when the executable transfer
/// fails, the whole state is left exactly as it was — in particular no
/// artifact, partial or otherwise, appears at the version's install
/// path — and the failure is reported as fatal.
pub proof fn lemma_failed_executable_fetch_changes_nothing(
    d: DiskView,
    version: Seq<char>,
    e: FetchError,
    icon_fetched: Result<Seq<u8>, FetchError>,
    desktop_fetched: Result<Seq<char>, FetchError>,
    icon_path: Seq<char>,
    executable_path: Seq<char>,
)
    requires
        !d.installed(version),
    ensures
        ({
            let (d1, r1) = install_spec(
                d,
                version,
                Some(Err(e)),
                icon_fetched,
                desktop_fetched,
                icon_path,
                executable_path,
            );
            d1 == d && r1 == Err::<(), InstallError>(InstallError::Executable(e))
        }),
{
}

/// Icon fallback correctness: when the live icon fetch fails but an
/// installed or cached icon exists, the install still succeeds (granted
/// the other stages can finish) and ends with an icon present for the
/// desktop entry to reference; with no copy anywhere, the install fails
/// and reports the icon as unavailable.
pub proof fn lemma_icon_fallback(
    d: DiskView,
    version: Seq<char>,
    exe_fetched: Option<Result<Seq<u8>, FetchError>>,
    icon_error: FetchError,
    desktop_fetched: Result<Seq<char>, FetchError>,
    icon_path: Seq<char>,
    executable_path: Seq<char>,
)
    requires
        d.installed(version) || exe_fetched matches Some(Ok(_)),
    ensures
        ({
            let (d1, r1) = install_spec(
                d,
                version,
                exe_fetched,
                Err(icon_error),
                desktop_fetched,
                icon_path,
                executable_path,
            );
            &&& (d.icon is Some || d.icon_cache is Some) ==> {
                &&& d1.icon is Some
                &&& (desktop_fetched is Ok || d.desktop_cache is Some) ==> (r1 is Ok
                    && d1.desktop is Some)
            }
            &&& (d.icon is None && d.icon_cache is None) ==> r1 == Err::<(),
            InstallError,
            >(InstallError::IconUnavailable)
        }),
{
}

} // verus!
