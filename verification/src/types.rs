//! Core name types: build-variant tags and possibly-templated package names.
//!
//! A templated package name carries a placeholder between a fixed prefix and
//! suffix; expanding it for a concrete variant splices the variant tag into
//! that slot. A non-templated name has no slot and expands to itself.

use vstd::prelude::*;

verus! {

/// An opaque symbolic build-flavor tag, spliced into templated names and
/// variant-sensitive fields at instantiation time.
pub struct Variant {
    pub name: String,
}

/// Ghost shape of a [`Variant`].
pub struct VariantV {
    pub name: Seq<char>,
}

impl View for Variant {
    type V = VariantV;

    open spec fn view(&self) -> VariantV {
        VariantV { name: self.name@ }
    }
}

impl DeepView for Variant {
    type V = VariantV;

    open spec fn deep_view(&self) -> VariantV {
        self.view()
    }
}

impl Variant {
    pub fn new(name: String) -> (r: Variant)
        ensures
            r@.name == name@,
    {
        Variant { name }
    }

    pub fn duplicate(&self) -> (r: Variant)
        ensures
            r@ == self@,
    {
        Variant { name: self.name.clone() }
    }
}

/// A package-name reference. `slot` is `Some((placeholder-present))` suffix
/// text when the name is templated: the concrete name for a variant `v` is
/// then `prefix + v + suffix`. A non-templated name is just its prefix.
pub struct VPackageName {
    pub prefix: String,
    pub suffix: Option<String>,
}

/// Ghost shape of a [`VPackageName`].
pub struct VPackageNameV {
    pub prefix: Seq<char>,
    pub suffix: Option<Seq<char>>,
}

impl View for VPackageName {
    type V = VPackageNameV;

    open spec fn view(&self) -> VPackageNameV {
        VPackageNameV {
            prefix: self.prefix@,
            suffix: match self.suffix {
                Option::Some(ref s) => Option::Some(s@),
                Option::None => Option::None,
            },
        }
    }
}

impl DeepView for VPackageName {
    type V = VPackageNameV;

    open spec fn deep_view(&self) -> VPackageNameV {
        self.view()
    }
}

/// Whether a name carries a variant placeholder.
pub open spec fn spec_is_templated(n: VPackageNameV) -> bool {
    n.suffix is Some
}

/// The ghost view of an optional variant argument.
pub open spec fn variant_arg_view(v: Option<&Variant>) -> Option<Seq<char>> {
    match v {
        Option::Some(var) => Option::Some(var.name@),
        Option::None => Option::None,
    }
}

/// The concrete name produced by expanding `n` for variant argument `v`.
/// A non-templated name ignores the argument; a templated name splices the
/// variant into its slot, or closes the slot up when no variant is selected.
pub open spec fn expanded_name(n: VPackageNameV, v: Option<Seq<char>>) -> Seq<char> {
    match n.suffix {
        Option::None => n.prefix,
        Option::Some(suf) => match v {
            Option::Some(var) => n.prefix + var + suf,
            Option::None => n.prefix + suf,
        },
    }
}

/// The raw (unexpanded) spelling of the name, with the literal placeholder
/// text kept in a templated name; this spelling names the specification file
/// on disk.
pub open spec fn raw_name(n: VPackageNameV) -> Seq<char> {
    match n.suffix {
        Option::None => n.prefix,
        Option::Some(suf) => n.prefix + "@variant@"@ + suf,
    }
}

/// Path of the specification file for this name under `dir`.
pub open spec fn spec_sps_path(dir: Seq<char>, n: VPackageNameV) -> Seq<char> {
    dir + "/"@ + raw_name(n) + ".sps"@
}

impl VPackageName {
    /// A name with no variant placeholder.
    pub fn plain(name: String) -> (r: VPackageName)
        ensures
            r@ == (VPackageNameV { prefix: name@, suffix: Option::None }),
    {
        VPackageName { prefix: name, suffix: Option::None }
    }

    /// A templated name whose placeholder sits between `prefix` and `suffix`.
    pub fn templated(prefix: String, suffix: String) -> (r: VPackageName)
        ensures
            r@ == (VPackageNameV { prefix: prefix@, suffix: Option::Some(suffix@) }),
    {
        VPackageName { prefix, suffix: Option::Some(suffix) }
    }

    pub fn duplicate(&self) -> (r: VPackageName)
        ensures
            r@ == self@,
    {
        VPackageName {
            prefix: self.prefix.clone(),
            suffix: match &self.suffix {
                Option::Some(s) => Option::Some(s.clone()),
                Option::None => Option::None,
            },
        }
    }

    /// Whether this name requires variant expansion.
    pub fn is_templated(&self) -> (r: bool)
        ensures
            r == spec_is_templated(self@),
    {
        self.suffix.is_some()
    }

    /// Expands this name for the given variant argument.
    pub fn expand(&self, variant: Option<&Variant>) -> (r: String)
        ensures
            r@ == expanded_name(self@, variant_arg_view(variant)),
    {
        let mut out = self.prefix.clone();
        match &self.suffix {
            Option::None => out,
            Option::Some(suf) => {
                match variant {
                    Option::Some(var) => {
                        out.append(var.name.as_str());
                        out.append(suf.as_str());
                        out
                    },
                    Option::None => {
                        out.append(suf.as_str());
                        out
                    },
                }
            },
        }
    }

    /// The raw spelling of the name, placeholder text included.
    pub fn raw(&self) -> (r: String)
        ensures
            r@ == raw_name(self@),
    {
        let mut out = self.prefix.clone();
        match &self.suffix {
            Option::None => out,
            Option::Some(suf) => {
                out.append("@variant@");
                out.append(suf.as_str());
                out
            },
        }
    }

    /// Path of the specification file carrying this package under `dir`.
    pub fn sps_path(&self, dir: &str) -> (r: String)
        ensures
            r@ == spec_sps_path(dir@, self@),
    {
        let mut out = String::from_str(dir);
        out.append("/");
        let raw = self.raw();
        out.append(raw.as_str());
        out.append(".sps");
        proof {
            assert(out@ =~= spec_sps_path(dir@, self@));
        }
        out
    }
}

/// Splicing two distinct variants into the same templated name yields two
/// distinct concrete names.
pub proof fn lemma_expansion_injective(n: VPackageNameV, v1: Seq<char>, v2: Seq<char>)
    requires
        spec_is_templated(n),
        expanded_name(n, Option::Some(v1)) == expanded_name(n, Option::Some(v2)),
    ensures
        v1 =~= v2,
{
    let p = n.prefix;
    let s = n.suffix->0;
    assert((p + v1 + s).len() == (p + v2 + s).len());
    assert(v1.len() == v2.len());
    assert forall|i: int| 0 <= i < v1.len() implies v1[i] == v2[i] by {
        assert((p + v1 + s)[p.len() + i] == v1[i]);
        assert((p + v2 + s)[p.len() + i] == v2[i]);
    }
}

} // verus!
