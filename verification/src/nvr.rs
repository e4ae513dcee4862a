//! Package identity: name-version-release, recovered from a source-package
//! filename.

use vstd::prelude::*;
use vstd::string::*;

use crate::errors::{ErrorView, KojiError};
use crate::strutil::{ends_with, rfind, rfind_char, str_eq};

verus! {

/// Spec-level value of an [`NVR`].
pub struct NvrView {
    pub name: Seq<char>,
    pub version: Seq<char>,
    pub release: Seq<char>,
}

/// A package name, version and release, all non-empty.
#[derive(Clone, Debug, PartialEq)]
pub struct NVR {
    pub name: String,
    pub version: String,
    pub release: String,
}

impl View for NVR {
    type V = NvrView;

    open spec fn view(&self) -> NvrView {
        NvrView { name: self.name@, version: self.version@, release: self.release@ }
    }
}

impl DeepView for NVR {
    type V = NvrView;

    open spec fn deep_view(&self) -> NvrView {
        self.view()
    }
}

impl NVR {
    /// A copy whose parts spell the same identity.
    pub fn duplicate(&self) -> (r: NVR)
        ensures
            r@ == self@,
    {
        NVR { name: self.name.clone(), version: self.version.clone(), release: self.release.clone() }
    }
}

/// A build architecture label like "noarch" or "x86_64"; it serves both as a
/// map key and as a value.
#[derive(Clone, Debug, PartialEq, Eq, Hash, PartialOrd, Ord)]
pub struct Arch(pub String);

impl View for Arch {
    type V = Seq<char>;

    open spec fn view(&self) -> Seq<char> {
        self.0@
    }
}

impl DeepView for Arch {
    type V = Seq<char>;

    open spec fn deep_view(&self) -> Seq<char> {
        self.0@
    }
}

impl Arch {
    /// A copy holding the same label.
    pub fn duplicate(&self) -> (r: Arch)
        ensures
            r@ == self@,
    {
        Arch(self.0.clone())
    }
}

/// The final path segment of a package path.
pub open spec fn file_of(s: Seq<char>) -> Seq<char> {
    match rfind(s, '/') {
        Some(k) => s.subrange(k + 1, s.len() as int),
        None => s,
    }
}

/// The filename with a trailing ".src.rpm" or ".rpm" suffix removed.
pub open spec fn stem_of(f: Seq<char>) -> Seq<char> {
    if ends_with(f, ".src.rpm"@) {
        f.subrange(0, f.len() - 8)
    } else if ends_with(f, ".rpm"@) {
        f.subrange(0, f.len() - 4)
    } else {
        f
    }
}

/// Name-version-release decomposition of a source-package filename: the two
/// last dash-separated fields of the stem are version and release, the rest
/// is the name; all three must be non-empty, or the filename is malformed.
pub open spec fn nvr_of_filename(f: Seq<char>) -> Result<NvrView, ErrorView> {
    let m = stem_of(f);
    match rfind(m, '-') {
        None => Err(ErrorView::MalformedIdentity(f)),
        Some(i2) => match rfind(m.subrange(0, i2), '-') {
            None => Err(ErrorView::MalformedIdentity(f)),
            Some(i1) => if 1 <= i1 && i1 + 1 < i2 && i2 + 1 < m.len() {
                Ok(
                    NvrView {
                        name: m.subrange(0, i1),
                        version: m.subrange(i1 + 1, i2),
                        release: m.subrange(i2 + 1, m.len() as int),
                    },
                )
            } else {
                Err(ErrorView::MalformedIdentity(f))
            },
        },
    }
}

/// Identity extraction from a `Pkg` parameter value: leading path segments
/// are dropped, then the filename is decomposed.
pub open spec fn nvr_lookup(pkg: Seq<char>) -> Result<NvrView, ErrorView> {
    nvr_of_filename(file_of(pkg))
}

/// Filename decomposition is a left inverse of construction: for dashless,
/// non-empty `name`, `version` and `release`, decomposing the filename
/// `{name}-{version}-{release}.src.rpm` yields exactly those three parts.
pub proof fn lemma_nvr_roundtrip(name: Seq<char>, version: Seq<char>, release: Seq<char>)
    requires
        name.len() > 0,
        version.len() > 0,
        release.len() > 0,
        forall|i: int| 0 <= i < name.len() ==> name[i] != '-',
        forall|i: int| 0 <= i < version.len() ==> version[i] != '-',
        forall|i: int| 0 <= i < release.len() ==> release[i] != '-',
    ensures
        nvr_of_filename(name + "-"@ + version + "-"@ + release + ".src.rpm"@) == Ok::<
            NvrView,
            ErrorView,
        >(NvrView { name, version, release }),
{
    reveal_strlit("-");
    reveal_strlit(".src.rpm");
    let d = "-"@;
    let suf = ".src.rpm"@;
    assert(d.len() == 1);
    assert(d[0] == '-');
    assert(suf.len() == 8);
    let nl = name.len() as int;
    let vl = version.len() as int;
    let nd = name + d;
    let ndv = nd + version;
    let ndvd = ndv + d;
    let stem = ndvd + release;
    let f = stem + suf;
    assert(name + d + version + d + release + suf == f);
    assert(f.subrange(f.len() - 8, f.len() as int) =~= suf);
    assert(ends_with(f, suf));
    assert(f.subrange(0, f.len() - 8) =~= stem);
    assert(stem_of(f) == stem);
    let i2 = nl + 1 + vl;
    assert(stem[i2] == d[0]);
    assert forall|j: int| i2 < j < stem.len() implies stem[j] != '-' by {
        assert(stem[j] == release[j - (nl + 2 + vl)]);
    }
    crate::strutil::lemma_rfind_is(stem, '-', i2);
    let head = stem.subrange(0, i2);
    assert(head =~= ndv);
    assert(head[nl] == d[0]);
    assert forall|j: int| nl < j < head.len() implies head[j] != '-' by {
        assert(head[j] == version[j - (nl + 1)]);
    }
    crate::strutil::lemma_rfind_is(head, '-', nl);
    assert(stem.subrange(0, nl) =~= name);
    assert(stem.subrange(nl + 1, i2) =~= version);
    assert(stem.subrange(i2 + 1, stem.len() as int) =~= release);
}

/// A successfully decomposed identity has a non-empty name, version and
/// release: the decomposition never returns a partially filled record.
pub proof fn lemma_nvr_parts_nonempty(f: Seq<char>)
    ensures
        nvr_of_filename(f) matches Ok(v) ==> v.name.len() > 0 && v.version.len() > 0
            && v.release.len() > 0,
{
}

/// Splits a source-package path into the package identity.
pub fn parse_nvr(pkg: &str) -> (r: Result<NVR, KojiError>)
    ensures
        r matches Ok(v) ==> nvr_lookup(pkg@) == Ok::<NvrView, ErrorView>(v@),
        r matches Err(e) ==> nvr_lookup(pkg@) == Err::<NvrView, ErrorView>(e@),
{
    let n = pkg.unicode_len();
    let fname: &str = match rfind_char(pkg, '/') {
        Some(k) => {
            proof {
                crate::strutil::lemma_rfind(pkg@, '/');
            }
            pkg.substring_char(k + 1, n)
        },
        None => pkg,
    };
    assert(fname@ == file_of(pkg@));
    let m = fname.unicode_len();
    proof {
        reveal_strlit(".src.rpm");
        reveal_strlit(".rpm");
    }
    let stem: &str = if m >= 8 && str_eq(fname.substring_char(m - 8, m), ".src.rpm") {
        fname.substring_char(0, m - 8)
    } else if m >= 4 && str_eq(fname.substring_char(m - 4, m), ".rpm") {
        fname.substring_char(0, m - 4)
    } else {
        fname
    };
    assert(stem@ == stem_of(fname@));
    let sl = stem.unicode_len();
    match rfind_char(stem, '-') {
        None => Err(KojiError::MalformedIdentity(String::from_str(fname))),
        Some(i2) => {
            proof {
                crate::strutil::lemma_rfind(stem@, '-');
            }
            let head = stem.substring_char(0, i2);
            match rfind_char(head, '-') {
                None => Err(KojiError::MalformedIdentity(String::from_str(fname))),
                Some(i1) => {
                    proof {
                        crate::strutil::lemma_rfind(head@, '-');
                    }
                    if 1 <= i1 && i1 + 1 < i2 && i2 + 1 < sl {
                        let name = String::from_str(stem.substring_char(0, i1));
                        let version = String::from_str(stem.substring_char(i1 + 1, i2));
                        let release = String::from_str(stem.substring_char(i2 + 1, sl));
                        Ok(NVR { name, version, release })
                    } else {
                        Err(KojiError::MalformedIdentity(String::from_str(fname)))
                    }
                },
            }
        },
    }
}

} // verus!

