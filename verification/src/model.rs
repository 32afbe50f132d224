//! The raw, directly-decoded shape of a specification document: a repository
//! of named sources, or a single-source document.

use vstd::prelude::*;
use crate::types::{Variant, VariantV, VPackageName, VPackageNameV};
use crate::package::distinct_variants;

verus! {

/// One buildable unit's configuration: build dependencies, build-helper
/// addons, variant tags and the packages belonging to it.
pub struct Source {
    /// Archive section tag.
    pub section: String,
    /// Build dependency list, order-preserving, duplicates allowed.
    pub build_depends: Vec<String>,
    /// Build-helper addon names, an insertion-ordered set.
    pub with_components: Vec<String>,
    /// Optional build-system name handed to the build helper.
    pub buildsystem: Option<String>,
    /// Configure parameters, order-preserving.
    pub autoconf_params: Vec<String>,
    /// Variant tags, an insertion-ordered set.
    pub variants: Vec<Variant>,
    /// Names of the packages belonging to this source, an insertion-ordered
    /// set; each may be templated.
    pub packages: Vec<VPackageName>,
    /// Suppress debug-symbol extraction in the rules script.
    pub skip_debug_symbols: bool,
    /// Suppress binary stripping in the rules script.
    pub skip_strip: bool,
}

/// Ghost shape of a [`Source`].
pub struct SourceV {
    pub section: Seq<char>,
    pub build_depends: Seq<Seq<char>>,
    pub with_components: Seq<Seq<char>>,
    pub buildsystem: Option<Seq<char>>,
    pub autoconf_params: Seq<Seq<char>>,
    pub variants: Seq<VariantV>,
    pub packages: Seq<VPackageNameV>,
    pub skip_debug_symbols: bool,
    pub skip_strip: bool,
}

impl View for Source {
    type V = SourceV;

    open spec fn view(&self) -> SourceV {
        SourceV {
            section: self.section@,
            build_depends: self.build_depends.deep_view(),
            with_components: self.with_components.deep_view(),
            buildsystem: match self.buildsystem {
                Option::Some(ref b) => Option::Some(b@),
                Option::None => Option::None,
            },
            autoconf_params: self.autoconf_params.deep_view(),
            variants: self.variants.deep_view(),
            packages: self.packages.deep_view(),
            skip_debug_symbols: self.skip_debug_symbols,
            skip_strip: self.skip_strip,
        }
    }
}

/// The ordered containers of a source that stand for sets keep pairwise
/// distinct elements; iteration order is their insertion order, which keeps
/// every generated output deterministic.
pub open spec fn source_wf(s: SourceV) -> bool {
    &&& distinct_variants(s.variants)
    &&& forall|i: int, j: int|
        0 <= i < j < s.with_components.len() ==> s.with_components[i] != s.with_components[j]
}

/// A repository document: a default maintainer identity and an ordered-key
/// mapping from source name to source.
pub struct Repository {
    pub maintainer: String,
    pub sources: Vec<SourceEntry>,
}

/// One named source of a repository.
pub struct SourceEntry {
    pub name: String,
    pub source: Source,
}

/// Ghost shape of a [`SourceEntry`].
pub struct SourceEntryV {
    pub name: Seq<char>,
    pub source: SourceV,
}

impl View for SourceEntry {
    type V = SourceEntryV;

    open spec fn view(&self) -> SourceEntryV {
        SourceEntryV { name: self.name@, source: self.source@ }
    }
}

impl DeepView for SourceEntry {
    type V = SourceEntryV;

    open spec fn deep_view(&self) -> SourceEntryV {
        self.view()
    }
}

/// Ghost shape of a [`Repository`].
pub struct RepositoryV {
    pub maintainer: Seq<char>,
    pub sources: Seq<SourceEntryV>,
}

impl View for Repository {
    type V = RepositoryV;

    open spec fn view(&self) -> RepositoryV {
        RepositoryV { maintainer: self.maintainer@, sources: self.sources.deep_view() }
    }
}

/// Source names of a repository are unique.
pub open spec fn repository_wf(r: RepositoryV) -> bool {
    forall|i: int, j: int| 0 <= i < j < r.sources.len() ==> r.sources[i].name != r.sources[j].name
}

/// A single-source document: one source name plus embedded source fields,
/// with an optional explicit maintainer identity.
pub struct SingleSource {
    pub name: String,
    pub maintainer: Option<String>,
    pub source: Source,
}

/// Ghost shape of a [`SingleSource`].
pub struct SingleSourceV {
    pub name: Seq<char>,
    pub maintainer: Option<Seq<char>>,
    pub source: SourceV,
}

impl View for SingleSource {
    type V = SingleSourceV;

    open spec fn view(&self) -> SingleSourceV {
        SingleSourceV {
            name: self.name@,
            maintainer: match self.maintainer {
                Option::Some(ref m) => Option::Some(m@),
                Option::None => Option::None,
            },
            source: self.source@,
        }
    }
}

/// Picks the maintainer identity: the document's explicit one, else the
/// environment-provided fallback; absence of both is an error the caller
/// must surface.
pub fn resolve_maintainer(explicit: Option<String>, fallback: Option<String>) -> (r: Option<
    String,
>)
    ensures
        match (explicit, fallback) {
            (Option::Some(m), _) => r matches Option::Some(x) && x@ == m@,
            (Option::None, Option::Some(f)) => r matches Option::Some(x) && x@ == f@,
            (Option::None, Option::None) => r is None,
        },
{
    match explicit {
        Option::Some(m) => Option::Some(m),
        Option::None => fallback,
    }
}

/// The two output-suppressing command modes are mutually exclusive:
/// dependency export and check mode must be rejected together, before any
/// processing begins.
pub fn modes_conflict(write_deps: bool, check_only: bool) -> (r: bool)
    ensures
        r == (write_deps && check_only),
{
    write_deps && check_only
}

} // verus!
