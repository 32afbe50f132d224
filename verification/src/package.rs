//! Raw package specifications, the fragment table they are merged from, and
//! their variant-concretized instances.
//!
//! A raw [`Package`] is the decoded content of one specification file: a
//! possibly-templated name, an ordered list of fragment references (names of
//! other specifications merged in), and its kind-specific fields. The
//! instantiator expands it, together with its resolved fragment table, into
//! one concrete [`PackageInstance`] per selected variant.

use vstd::prelude::*;
use crate::types::{
    Variant, VariantV, VPackageName, VPackageNameV, expanded_name, lemma_expansion_injective,
    spec_is_templated, variant_arg_view,
};
use crate::validate::{find_text, first_match, lemma_find_from_matches, matches_at};

verus! {

/// Kind-specific data of a service package: the two manual start/stop
/// refusal flags consumed by the rules-script synthesizer.
#[derive(Clone, Copy, PartialEq, Eq, Structural)]
pub struct ServiceSpec {
    pub refuse_manual_start: bool,
    pub refuse_manual_stop: bool,
}

/// The package kinds this compiler distinguishes: a plain package, or a
/// service package carrying systemd-unit metadata.
#[derive(Clone, Copy, PartialEq, Eq, Structural)]
pub enum PackageSpec {
    Base,
    Service(ServiceSpec),
}

/// The raw intermediate representation of one package specification file.
pub struct Package {
    /// Possibly-templated name of the package.
    pub name: VPackageName,
    /// Ordered references to fragment specifications merged into this one.
    pub fragments: Vec<String>,
    /// Short description; a required field, enforced by validation.
    pub summary: Option<String>,
    /// Runtime dependency list, order-preserving, duplicates allowed.
    pub depends: Vec<String>,
    /// Kind-specific fields.
    pub spec: PackageSpec,
}

/// Ghost shape of a [`Package`].
pub struct PackageV {
    pub name: VPackageNameV,
    pub fragments: Seq<Seq<char>>,
    pub summary: Option<Seq<char>>,
    pub depends: Seq<Seq<char>>,
    pub spec: PackageSpec,
}

impl View for Package {
    type V = PackageV;

    open spec fn view(&self) -> PackageV {
        PackageV {
            name: self.name@,
            fragments: self.fragments.deep_view(),
            summary: match self.summary {
                Option::Some(ref s) => Option::Some(s@),
                Option::None => Option::None,
            },
            depends: self.depends.deep_view(),
            spec: self.spec,
        }
    }
}

impl DeepView for Package {
    type V = PackageV;

    open spec fn deep_view(&self) -> PackageV {
        self.view()
    }
}

impl Package {
    pub fn duplicate(&self) -> (r: Package)
        ensures
            r@ == self@,
    {
        let r = Package {
            name: self.name.duplicate(),
            fragments: clone_strings(&self.fragments),
            summary: match &self.summary {
                Option::Some(s) => Option::Some(s.clone()),
                Option::None => Option::None,
            },
            depends: clone_strings(&self.depends),
            spec: self.spec,
        };
        proof {
            assert(r@.fragments =~= self@.fragments);
            assert(r@.depends =~= self@.depends);
        }
        r
    }
}

/// Copies a list of strings, value for value.
pub fn clone_strings(src: &Vec<String>) -> (r: Vec<String>)
    ensures
        r@ == src@,
{
    let mut out: Vec<String> = Vec::new();
    let mut i: usize = 0;
    while i < src.len()
        invariant
            i <= src.len(),
            out@ == src@.take(i as int),
        decreases src.len() - i,
    {
        out.push(src[i].clone());
        proof {
            assert(out@ =~= src@.take(i as int + 1));
        }
        i = i + 1;
    }
    proof {
        assert(src@.take(src.len() as int) =~= src@);
    }
    out
}

/// Appends every element of `src` to `dst`, value for value.
pub fn append_strings(dst: &mut Vec<String>, src: &Vec<String>)
    ensures
        final(dst)@ == old(dst)@ + src@,
{
    let mut i: usize = 0;
    while i < src.len()
        invariant
            i <= src.len(),
            dst@ == old(dst)@ + src@.take(i as int),
        decreases src.len() - i,
    {
        dst.push(src[i].clone());
        proof {
            assert(old(dst)@ + src@.take(i as int + 1) =~= (old(dst)@ + src@.take(
                i as int,
            )).push(src@[i as int]));
        }
        i = i + 1;
    }
    proof {
        assert(old(dst)@ + src@.take(src.len() as int) =~= old(dst)@ + src@);
    }
}

/// One resolved entry of a fragment table: a specification name and the
/// package decoded from its file.
pub struct PackageEntry {
    pub name: String,
    pub package: Package,
}

/// Ghost shape of a [`PackageEntry`].
pub struct PackageEntryV {
    pub name: Seq<char>,
    pub package: PackageV,
}

impl View for PackageEntry {
    type V = PackageEntryV;

    open spec fn view(&self) -> PackageEntryV {
        PackageEntryV { name: self.name@, package: self.package@ }
    }
}

impl DeepView for PackageEntry {
    type V = PackageEntryV;

    open spec fn deep_view(&self) -> PackageEntryV {
        self.view()
    }
}

/// Index of the first entry named `name`, or `-1` when none is.
pub open spec fn table_find(t: Seq<PackageEntryV>, name: Seq<char>) -> int
    decreases t.len(),
{
    if t.len() == 0 {
        -1
    } else if t[0].name == name {
        0
    } else {
        let r = table_find(t.drop_first(), name);
        if r < 0 {
            -1
        } else {
            r + 1
        }
    }
}

/// The package stored under `name`, if any.
pub open spec fn table_get(t: Seq<PackageEntryV>, name: Seq<char>) -> Option<PackageV> {
    let i = table_find(t, name);
    if i >= 0 {
        Option::Some(t[i].package)
    } else {
        Option::None
    }
}

/// A table is well formed when its entry names are pairwise distinct
/// (it is an insertion-ordered map).
pub open spec fn table_wf(t: Seq<PackageEntryV>) -> bool {
    forall|i: int, j: int| 0 <= i < j < t.len() ==> t[i].name != t[j].name
}

pub proof fn lemma_table_find_at(t: Seq<PackageEntryV>, name: Seq<char>, i: int)
    requires
        0 <= i < t.len(),
        t[i].name == name,
        forall|j: int| 0 <= j < i ==> t[j].name != name,
    ensures
        table_find(t, name) == i,
    decreases t.len(),
{
    if i > 0 {
        lemma_table_find_at(t.drop_first(), name, i - 1);
    }
}

pub proof fn lemma_table_find_none(t: Seq<PackageEntryV>, name: Seq<char>)
    requires
        forall|j: int| 0 <= j < t.len() ==> t[j].name != name,
    ensures
        table_find(t, name) == -1,
    decreases t.len(),
{
    if t.len() > 0 {
        lemma_table_find_none(t.drop_first(), name);
    }
}

/// An insertion-ordered name-to-package mapping, the result of fragment
/// resolution.
pub struct PackageTable {
    pub entries: Vec<PackageEntry>,
}

impl View for PackageTable {
    type V = Seq<PackageEntryV>;

    open spec fn view(&self) -> Seq<PackageEntryV> {
        self.entries.deep_view()
    }
}

impl PackageTable {
    pub fn new() -> (r: PackageTable)
        ensures
            r@ =~= Seq::<PackageEntryV>::empty(),
    {
        PackageTable { entries: Vec::new() }
    }

    pub fn len(&self) -> (r: usize)
        ensures
            r == self@.len(),
    {
        self.entries.len()
    }

    /// Whether an entry named `name` is present.
    pub fn contains_name(&self, name: &String) -> (r: bool)
        ensures
            r == (table_find(self@, name@) >= 0),
    {
        let mut i: usize = 0;
        while i < self.entries.len()
            invariant
                i <= self.entries.len(),
                self@.len() == self.entries.len(),
                forall|j: int| 0 <= j < i ==> self@[j].name != name@,
            decreases self.entries.len() - i,
        {
            proof {
                assert(self@[i as int] == self.entries@[i as int]@);
            }
            if self.entries[i].name.eq(name) {
                proof {
                    lemma_table_find_at(self@, name@, i as int);
                }
                return true;
            }
            i = i + 1;
        }
        proof {
            lemma_table_find_none(self@, name@);
        }
        false
    }

    /// Looks the package named `name` up.
    pub fn get(&self, name: &String) -> (r: Option<&Package>)
        ensures
            match r {
                Option::Some(p) => table_get(self@, name@) == Option::Some(p@),
                Option::None => table_get(self@, name@) is None,
            },
    {
        let mut i: usize = 0;
        while i < self.entries.len()
            invariant
                i <= self.entries.len(),
                self@.len() == self.entries.len(),
                forall|j: int| 0 <= j < i ==> self@[j].name != name@,
            decreases self.entries.len() - i,
        {
            proof {
                assert(self@[i as int] == self.entries@[i as int]@);
            }
            if self.entries[i].name.eq(name) {
                proof {
                    lemma_table_find_at(self@, name@, i as int);
                }
                return Option::Some(&self.entries[i].package);
            }
            i = i + 1;
        }
        proof {
            lemma_table_find_none(self@, name@);
        }
        Option::None
    }

    /// Adds a fresh entry at the end; the name must not be present yet, so
    /// the table stays an insertion-ordered map.
    pub fn insert(&mut self, name: String, package: Package)
        requires
            table_find(old(self)@, name@) < 0,
        ensures
            final(self)@ =~= old(self)@.push(PackageEntryV { name: name@, package: package@ }),
    {
        self.entries.push(PackageEntry { name, package });
    }
}

/// Dependency lists contributed by the referenced fragments, concatenated
/// in reference order; a reference absent from the table contributes
/// nothing (resolution has already failed or will fail in that case).
pub open spec fn fragments_depends(names: Seq<Seq<char>>, t: Seq<PackageEntryV>) -> Seq<
    Seq<char>,
>
    decreases names.len(),
{
    if names.len() == 0 {
        Seq::empty()
    } else {
        (match table_get(t, names[0]) {
            Option::Some(fp) => fp.depends,
            Option::None => Seq::empty(),
        }) + fragments_depends(names.drop_first(), t)
    }
}

proof fn lemma_fragments_depends_push(
    names: Seq<Seq<char>>,
    n: Seq<char>,
    t: Seq<PackageEntryV>,
)
    ensures
        fragments_depends(names.push(n), t) == fragments_depends(names, t) + (
        match table_get(t, n) {
            Option::Some(fp) => fp.depends,
            Option::None => Seq::empty(),
        }),
    decreases names.len(),
{
    if names.len() == 0 {
        assert(names.push(n).len() == 1);
        assert(names.push(n)[0] == n);
        assert(names.push(n).drop_first() =~= Seq::<Seq<char>>::empty());
        assert(fragments_depends(names.push(n).drop_first(), t) =~= Seq::<Seq<char>>::empty());
        assert(fragments_depends(names, t) + (match table_get(t, n) {
            Option::Some(fp) => fp.depends,
            Option::None => Seq::empty(),
        }) =~= fragments_depends(names.push(n), t));
    } else {
        assert(names.push(n).drop_first() =~= names.drop_first().push(n));
        assert(names.push(n)[0] == names[0]);
        lemma_fragments_depends_push(names.drop_first(), n, t);
        assert(fragments_depends(names.push(n), t) =~= fragments_depends(names, t) + (
        match table_get(t, n) {
            Option::Some(fp) => fp.depends,
            Option::None => Seq::empty(),
        }));
    }
}


/// The text spliced into variant-aware fields: the selected variant's tag,
/// or nothing when no variant is selected (the placeholder is closed up,
/// as in name expansion).
pub open spec fn variant_text(v: Option<Seq<char>>) -> Seq<char> {
    match v {
        Option::Some(t) => t,
        Option::None => Seq::empty(),
    }
}

/// `s` with every occurrence of the variant placeholder replaced by `var`,
/// left to right.
pub open spec fn subst_all(s: Seq<char>, var: Seq<char>) -> Seq<char>
    decreases s.len(),
{
    let p = "@variant@"@;
    let i = first_match(s, p);
    if i < 0 || p.len() == 0 || i + p.len() > s.len() {
        s
    } else {
        s.subrange(0, i) + var + subst_all(s.subrange(i + p.len(), s.len() as int), var)
    }
}

/// Every item of `items` with the placeholder substituted.
pub open spec fn subst_each(items: Seq<Seq<char>>, var: Seq<char>) -> Seq<Seq<char>> {
    Seq::new(items.len(), |i: int| subst_all(items[i], var))
}

/// Replaces every occurrence of the variant placeholder in `s` by the
/// selected variant's tag; with no variant selected the placeholder is
/// removed.
pub fn substitute_placeholder(s: &str, variant: Option<&Variant>) -> (r: String)
    ensures
        r@ == subst_all(s@, variant_text(variant_arg_view(variant))),
{
    let ghost vt = variant_text(variant_arg_view(variant));
    proof {
        reveal_strlit("@variant@");
        reveal_strlit("");
        assert(""@ =~= vt || vt == variant_arg_view(variant)->0);
    }
    let varstr: &str = match variant {
        Option::Some(v) => v.name.as_str(),
        Option::None => "",
    };
    proof {
        assert(varstr@ =~= vt);
    }
    let mut out = String::new();
    let mut rest: &str = s;
    loop
        invariant
            varstr@ == vt,
            vt == variant_text(variant_arg_view(variant)),
            subst_all(s@, vt) == out@ + subst_all(rest@, vt),
            "@variant@"@.len() == 9,
        decreases rest@.len(),
    {
        match find_text(rest, "@variant@") {
            Option::None => {
                proof {
                    assert(subst_all(rest@, vt) == rest@);
                }
                out.append(rest);
                return out;
            },
            Option::Some(i) => {
                proof {
                    lemma_find_from_matches(rest@, "@variant@"@, 0);
                    assert(matches_at(rest@, "@variant@"@, i as int));
                    assert(i + 9 <= rest@.len());
                }
                let ghost rest0 = rest@;
                let head = rest.substring_char(0, i);
                out.append(head);
                out.append(varstr);
                let len = rest.unicode_len();
                rest = rest.substring_char(i + 9, len);
                proof {
                    assert(rest@ =~= rest0.subrange(i + 9, rest0.len() as int));
                    assert(subst_all(rest0, vt) == rest0.subrange(0, i as int) + vt + subst_all(
                        rest@,
                        vt,
                    ));
                    assert(out@ + subst_all(rest@, vt) =~= subst_all(s@, vt));
                }
            },
        }
    }
}

/// A fully resolved, variant-concretized package, ready for validation and
/// generation. Immutable once created.
pub struct PackageInstance {
    /// Concrete (expanded) package name.
    pub name: String,
    /// The variant this instance was expanded for, if any.
    pub variant: Option<Variant>,
    /// Short description, merged from the raw package.
    pub summary: Option<String>,
    /// Dependency list: the package's own, then each fragment's, in order,
    /// each with the variant placeholder substituted.
    pub depends: Vec<String>,
    /// Kind-specific fields.
    pub spec: PackageSpec,
}

/// Ghost shape of a [`PackageInstance`].
pub struct PackageInstanceV {
    pub name: Seq<char>,
    pub variant: Option<Seq<char>>,
    pub summary: Option<Seq<char>>,
    pub depends: Seq<Seq<char>>,
    pub spec: PackageSpec,
}

impl View for PackageInstance {
    type V = PackageInstanceV;

    open spec fn view(&self) -> PackageInstanceV {
        PackageInstanceV {
            name: self.name@,
            variant: match self.variant {
                Option::Some(ref v) => Option::Some(v@.name),
                Option::None => Option::None,
            },
            summary: match self.summary {
                Option::Some(ref s) => Option::Some(s@),
                Option::None => Option::None,
            },
            depends: self.depends.deep_view(),
            spec: self.spec,
        }
    }
}

impl DeepView for PackageInstance {
    type V = PackageInstanceV;

    open spec fn deep_view(&self) -> PackageInstanceV {
        self.view()
    }
}

/// The instance the instantiator owes for raw package `p`, variant argument
/// `v` and resolved fragment table `t`.
pub open spec fn instance_of(
    p: PackageV,
    v: Option<Seq<char>>,
    t: Seq<PackageEntryV>,
) -> PackageInstanceV {
    PackageInstanceV {
        name: expanded_name(p.name, v),
        variant: v,
        summary: p.summary,
        depends: subst_each(p.depends + fragments_depends(p.fragments, t), variant_text(v)),
        spec: p.spec,
    }
}

/// The instance list the instantiator owes for one raw package under a
/// source declaring `variants`: one unexpanded instance when the package is
/// not templated or no variant exists, else one instance per variant, in
/// variant order.
pub open spec fn instances_of(
    p: PackageV,
    variants: Seq<VariantV>,
    t: Seq<PackageEntryV>,
) -> Seq<PackageInstanceV> {
    if variants.len() == 0 || !spec_is_templated(p.name) {
        seq![instance_of(p, Option::None, t)]
    } else {
        Seq::new(variants.len(), |i: int| instance_of(p, Option::Some(variants[i].name), t))
    }
}

impl Package {
    /// Expands this package for one variant argument, merging the
    /// dependency contributions of its referenced fragments in order.
    /// Pure: performs no I/O and cannot fail.
    pub fn instantiate(&self, variant: Option<&Variant>, fragments: &PackageTable) -> (r:
        PackageInstance)
        ensures
            r@ == instance_of(self@, variant_arg_view(variant), fragments@),
    {
        let name = self.name.expand(variant);
        let mut depends = clone_strings(&self.depends);
        proof {
            assert(depends.deep_view() =~= self@.depends + fragments_depends(
                self@.fragments.take(0),
                fragments@,
            ));
        }
        let mut i: usize = 0;
        while i < self.fragments.len()
            invariant
                i <= self.fragments.len(),
                self@.fragments.len() == self.fragments.len(),
                depends.deep_view() == self@.depends + fragments_depends(
                    self@.fragments.take(i as int),
                    fragments@,
                ),
            decreases self.fragments.len() - i,
        {
            let ghost done = self@.fragments.take(i as int);
            match fragments.get(&self.fragments[i]) {
                Option::Some(fp) => {
                    append_strings(&mut depends, &fp.depends);
                    proof {
                        assert(depends.deep_view() =~= self@.depends + fragments_depends(done, fragments@)
                            + fp@.depends);
                    }
                },
                Option::None => {},
            }
            proof {
                assert(self@.fragments.take(i as int + 1) =~= done.push(self@.fragments[i as int]));
                lemma_fragments_depends_push(done, self@.fragments[i as int], fragments@);
                assert(depends.deep_view() =~= self@.depends + fragments_depends(
                    self@.fragments.take(i as int + 1),
                    fragments@,
                ));
            }
            i = i + 1;
        }
        proof {
            assert(self@.fragments.take(self.fragments.len() as int) =~= self@.fragments);
        }
        let ghost merged = self@.depends + fragments_depends(self@.fragments, fragments@);
        let ghost vt = variant_text(variant_arg_view(variant));
        let mut subst_depends: Vec<String> = Vec::new();
        let mut j: usize = 0;
        while j < depends.len()
            invariant
                j <= depends.len(),
                depends.deep_view() == merged,
                vt == variant_text(variant_arg_view(variant)),
                subst_depends.deep_view() =~= subst_each(merged.take(j as int), vt),
            decreases depends.len() - j,
        {
            let ghost before = subst_depends.deep_view();
            let ghost beforev = subst_depends@;
            subst_depends.push(substitute_placeholder(depends[j].as_str(), variant));
            proof {
                assert(depends.deep_view()[j as int] == depends@[j as int]@);
                assert(merged.take(j as int).len() == j);
                assert(before.len() == j);
                assert(beforev.len() == j);
                assert(subst_depends@ == beforev.push(subst_depends@[j as int]));
                assert(subst_depends@.len() == j + 1);
                assert(subst_depends.deep_view()[j as int] == subst_depends@[j as int]@);
                assert forall|k: int| 0 <= k < j implies subst_depends.deep_view()[k]
                    == before[k] by {
                    assert(subst_depends@[k] == beforev[k]);
                    assert(before[k] == beforev[k]@);
                }
                assert forall|k: int| 0 <= k < j + 1 implies subst_depends.deep_view()[k]
                    == subst_each(merged.take(j as int + 1), vt)[k] by {
                    assert(merged.take(j as int + 1)[k] == merged[k]);
                    if k < j {
                        assert(subst_depends.deep_view()[k] == before[k]);
                        assert(before[k] == subst_all(merged.take(j as int)[k], vt));
                        assert(merged.take(j as int)[k] == merged[k]);
                    } else {
                        assert(subst_depends.deep_view()[k] == subst_depends@[j as int]@);
                        assert(depends.deep_view()[j as int] == merged[j as int]);
                    }
                }
                assert(subst_depends.deep_view().len() == j + 1);
                assert(subst_each(merged.take(j as int + 1), vt).len() == j + 1);
                assert(subst_depends.deep_view() =~= subst_each(merged.take(j as int + 1), vt));
            }
            j = j + 1;
        }
        proof {
            assert(merged.take(depends.len() as int) =~= merged);
        }
        let r = PackageInstance {
            name,
            variant: match variant {
                Option::Some(v) => Option::Some(v.duplicate()),
                Option::None => Option::None,
            },
            summary: match &self.summary {
                Option::Some(s) => Option::Some(s.clone()),
                Option::None => Option::None,
            },
            depends: subst_depends,
            spec: self.spec,
        };
        r
    }

    /// Expands this package once per selected variant: a non-templated
    /// package, or a source without variants, yields exactly one instance.
    pub fn instantiate_all(&self, variants: &Vec<Variant>, fragments: &PackageTable) -> (r: Vec<
        PackageInstance,
    >)
        ensures
            r.deep_view() == instances_of(self@, variants.deep_view(), fragments@),
    {
        let mut out: Vec<PackageInstance> = Vec::new();
        if variants.len() == 0 || !self.name.is_templated() {
            out.push(self.instantiate(Option::None, fragments));
            proof {
                assert(out.deep_view() =~= instances_of(
                    self@,
                    variants.deep_view(),
                    fragments@,
                ));
            }
        } else {
            let mut i: usize = 0;
            while i < variants.len()
                invariant
                    i <= variants.len(),
                    variants.deep_view().len() == variants.len(),
                    spec_is_templated(self@.name),
                    variants.len() > 0,
                    out@.len() == i,
                    forall|j: int|
                        0 <= j < i ==> (#[trigger] out@[j])@ == instance_of(
                            self@,
                            Option::Some(variants@[j].name@),
                            fragments@,
                        ),
                decreases variants.len() - i,
            {
                out.push(self.instantiate(Option::Some(&variants[i]), fragments));
                i = i + 1;
            }
            proof {
                assert forall|k: int| 0 <= k < variants.len() implies out.deep_view()[k]
                    == instances_of(self@, variants.deep_view(), fragments@)[k] by {
                    assert(out.deep_view()[k] == out@[k]@);
                    assert(variants.deep_view()[k] == variants@[k]@);
                }
                assert(out.deep_view() =~= instances_of(self@, variants.deep_view(), fragments@));
            }
        }
        out
    }
}

/// The refinement of a service-typed instance: its systemd unit name (the
/// instance name) and the two refusal flags.
pub struct ServiceInstance {
    pub name: String,
    pub spec: ServiceSpec,
}

/// Ghost shape of a [`ServiceInstance`].
pub struct ServiceInstanceV {
    pub name: Seq<char>,
    pub spec: ServiceSpec,
}

impl View for ServiceInstance {
    type V = ServiceInstanceV;

    open spec fn view(&self) -> ServiceInstanceV {
        ServiceInstanceV { name: self.name@, spec: self.spec }
    }
}

impl ServiceInstance {
    /// The systemd unit name this service installs.
    pub fn service_name(&self) -> (r: String)
        ensures
            r@ == self@.name,
    {
        self.name.clone()
    }
}

impl PackageInstance {
    /// Attempts the refinement to a service instance; succeeds exactly for
    /// service-typed instances.
    pub fn as_service(&self) -> (r: Option<ServiceInstance>)
        ensures
            match self.spec {
                PackageSpec::Service(s) => r matches Option::Some(si) && si@.name == self@.name
                    && si@.spec == s,
                PackageSpec::Base => r is None,
            },
    {
        match self.spec {
            PackageSpec::Service(s) => Option::Some(
                ServiceInstance { name: self.name.clone(), spec: s },
            ),
            PackageSpec::Base => Option::None,
        }
    }

    /// The systemd unit name, for service-typed instances only.
    pub fn service_name(&self) -> (r: Option<String>)
        ensures
            match self.spec {
                PackageSpec::Service(_) => r matches Option::Some(n) && n@ == self@.name,
                PackageSpec::Base => r is None,
            },
    {
        match self.spec {
            PackageSpec::Service(_) => Option::Some(self.name.clone()),
            PackageSpec::Base => Option::None,
        }
    }
}

/// Variant tags are pairwise distinct (a variant set, insertion-ordered).
pub open spec fn distinct_variants(variants: Seq<VariantV>) -> bool {
    forall|i: int, j: int| 0 <= i < j < variants.len() ==> variants[i].name != variants[j].name
}

/// A non-templated package yields exactly one instance, however many
/// variants its source declares.
pub proof fn lemma_untemplated_single_instance(
    p: PackageV,
    variants: Seq<VariantV>,
    t: Seq<PackageEntryV>,
)
    requires
        !spec_is_templated(p.name),
    ensures
        instances_of(p, variants, t).len() == 1,
{
}

/// A templated package in a source with a non-empty variant set yields one
/// instance per variant; each instance's name is exactly the template with
/// its variant spliced in, and distinct variants give pairwise distinct
/// instance names.
pub proof fn lemma_templated_instances(
    p: PackageV,
    variants: Seq<VariantV>,
    t: Seq<PackageEntryV>,
)
    requires
        spec_is_templated(p.name),
        variants.len() > 0,
        distinct_variants(variants),
    ensures
        instances_of(p, variants, t).len() == variants.len(),
        forall|i: int|
            0 <= i < variants.len() ==> instances_of(p, variants, t)[i].name == p.name.prefix
                + variants[i].name + p.name.suffix->0,
        forall|i: int, j: int|
            0 <= i < j < variants.len() ==> instances_of(p, variants, t)[i].name != instances_of(
                p,
                variants,
                t,
            )[j].name,
{
    let insts = instances_of(p, variants, t);
    assert forall|i: int, j: int| 0 <= i < j < variants.len() implies insts[i].name
        != insts[j].name by {
        if insts[i].name == insts[j].name {
            lemma_expansion_injective(p.name, variants[i].name, variants[j].name);
        }
    }
}

} // verus!
