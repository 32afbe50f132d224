//! The per-source compilation driver: it takes the decoded packages of one
//! source, resolves their fragments, expands variants, validates every
//! instance fail-fast, and synthesizes the source's output plan — every
//! path and every text the orchestration owes, as values. The caller that
//! owns the file system materializes the plan; check mode stops after
//! validation and materializes nothing.

use vstd::prelude::*;
use crate::model::Source;
use crate::package::{
    Package, PackageEntryV, PackageInstance, PackageInstanceV, PackageSpec, PackageTable,
    PackageV, instances_of,
};
use crate::render::{
    ServiceRule, ServiceRuleV, control_text, dep_stanza_text, render_control, render_dep_stanza,
    render_rules, rules_text,
};
use crate::resolver::{ResolveError, ResolveErrorV, budget_of, resolution_of, resolve_all};
use crate::types::VariantV;
use crate::validate::{Diagnostic, DiagnosticV, validation_of};
use crate::version::{get_upstream_version, upstream_of};

verus! {

/// One decoded package specification: the raw package, the path of its
/// file, and the original source text (kept for diagnostics).
pub struct LoadedPackage {
    pub package: Package,
    pub file: String,
    pub text: String,
}

/// Ghost shape of a [`LoadedPackage`].
pub struct LoadedPackageV {
    pub package: PackageV,
    pub file: Seq<char>,
    pub text: Seq<char>,
}

impl View for LoadedPackage {
    type V = LoadedPackageV;

    open spec fn view(&self) -> LoadedPackageV {
        LoadedPackageV { package: self.package@, file: self.file@, text: self.text@ }
    }
}

impl DeepView for LoadedPackage {
    type V = LoadedPackageV;

    open spec fn deep_view(&self) -> LoadedPackageV {
        self.view()
    }
}

/// Failure of one source's compilation.
#[derive(Debug)]
pub enum PlanError {
    /// Fragment resolution failed for the package of the named file.
    Resolve(String, ResolveError),
    /// An instance violated a structural invariant.
    Invalid(Diagnostic),
}

/// Ghost shape of a [`PlanError`].
pub enum PlanErrorV {
    Resolve(Seq<char>, ResolveErrorV),
    Invalid(DiagnosticV),
}

impl View for PlanError {
    type V = PlanErrorV;

    open spec fn view(&self) -> PlanErrorV {
        match self {
            PlanError::Resolve(f, e) => PlanErrorV::Resolve(f@, e@),
            PlanError::Invalid(d) => PlanErrorV::Invalid(d@),
        }
    }
}

/// The first diagnostic among the instances of one file, in instance
/// order, or none when every instance is valid.
pub open spec fn first_invalid(
    insts: Seq<PackageInstanceV>,
    file: Seq<char>,
    text: Seq<char>,
) -> Option<DiagnosticV>
    decreases insts.len(),
{
    if insts.len() == 0 {
        Option::None
    } else {
        match validation_of(insts[0], file, text) {
            Option::Some(d) => Option::Some(d),
            Option::None => first_invalid(insts.drop_first(), file, text),
        }
    }
}

proof fn lemma_first_invalid_at(
    insts: Seq<PackageInstanceV>,
    file: Seq<char>,
    text: Seq<char>,
    i: int,
)
    requires
        0 <= i < insts.len(),
        forall|j: int| 0 <= j < i ==> validation_of(#[trigger] insts[j], file, text) is None,
        validation_of(insts[i], file, text) is Some,
    ensures
        first_invalid(insts, file, text) == validation_of(insts[i], file, text),
    decreases i,
{
    if i > 0 {
        lemma_first_invalid_at(insts.drop_first(), file, text, i - 1);
    }
}

proof fn lemma_first_invalid_none(insts: Seq<PackageInstanceV>, file: Seq<char>, text: Seq<char>)
    requires
        forall|j: int|
            0 <= j < insts.len() ==> validation_of(#[trigger] insts[j], file, text) is None,
    ensures
        first_invalid(insts, file, text) is None,
    decreases insts.len(),
{
    if insts.len() > 0 {
        lemma_first_invalid_none(insts.drop_first(), file, text);
    }
}

/// Validates every instance, in order, returning the first diagnostic.
fn scan_invalid(insts: &Vec<PackageInstance>, file: &String, text: &String) -> (r: Option<
    Diagnostic,
>)
    ensures
        match r {
            Option::Some(d) => first_invalid(insts.deep_view(), file@, text@) == Option::Some(
                d@,
            ),
            Option::None => first_invalid(insts.deep_view(), file@, text@) is None,
        },
{
    let mut i: usize = 0;
    while i < insts.len()
        invariant
            i <= insts.len(),
            insts.deep_view().len() == insts.len(),
            forall|j: int|
                0 <= j < i ==> validation_of(
                    #[trigger] insts.deep_view()[j],
                    file@,
                    text@,
                ) is None,
        decreases insts.len() - i,
    {
        proof {
            assert(insts.deep_view()[i as int] == insts@[i as int]@);
        }
        match insts[i].validate(file.as_str(), text.as_str()) {
            Option::Some(d) => {
                proof {
                    lemma_first_invalid_at(insts.deep_view(), file@, text@, i as int);
                }
                return Option::Some(d);
            },
            Option::None => {},
        }
        i = i + 1;
    }
    proof {
        lemma_first_invalid_none(insts.deep_view(), file@, text@);
    }
    Option::None
}

/// Every loaded package's resolution budget fits the machine word.
pub open spec fn budgets_ok(loaded: Seq<LoadedPackageV>, universe: Seq<PackageEntryV>) -> bool {
    forall|i: int|
        0 <= i < loaded.len() ==> budget_of((#[trigger] loaded[i]).package, universe)
            <= usize::MAX
}

/// The outcome one loaded package owes: its resolved instances, or the
/// first failure (resolution, then validation, fail-fast).
pub open spec fn package_outcome(
    lp: LoadedPackageV,
    variants: Seq<VariantV>,
    universe: Seq<PackageEntryV>,
) -> Result<Seq<PackageInstanceV>, PlanErrorV> {
    match resolution_of(lp.package, universe) {
        Result::Err(e) => Result::Err(PlanErrorV::Resolve(lp.file, e)),
        Result::Ok(table) => {
            let insts = instances_of(lp.package, variants, table);
            match first_invalid(insts, lp.file, lp.text) {
                Option::Some(d) => Result::Err(PlanErrorV::Invalid(d)),
                Option::None => Result::Ok(insts),
            }
        },
    }
}

/// The outcome a whole source owes: the concatenated instances of its
/// packages in declaration order, or the first failure.
pub open spec fn process_packages(
    loaded: Seq<LoadedPackageV>,
    variants: Seq<VariantV>,
    universe: Seq<PackageEntryV>,
) -> Result<Seq<PackageInstanceV>, PlanErrorV>
    decreases loaded.len(),
{
    if loaded.len() == 0 {
        Result::Ok(Seq::empty())
    } else {
        match package_outcome(loaded[0], variants, universe) {
            Result::Err(e) => Result::Err(e),
            Result::Ok(insts) => match process_packages(loaded.drop_first(), variants, universe) {
                Result::Ok(rest) => Result::Ok(insts + rest),
                Result::Err(e) => Result::Err(e),
            },
        }
    }
}

/// Resolves, expands and validates every package of a source, fail-fast,
/// yielding every validated instance in package-then-variant order.
pub fn collect_instances(source: &Source, loaded: &Vec<LoadedPackage>, universe: &PackageTable)
    -> (r: Result<Vec<PackageInstance>, PlanError>)
    requires
        budgets_ok(loaded.deep_view(), universe@),
    ensures
        match r {
            Result::Ok(v) => process_packages(loaded.deep_view(), source@.variants, universe@)
                == Result::<Seq<PackageInstanceV>, PlanErrorV>::Ok(v.deep_view()),
            Result::Err(e) => process_packages(loaded.deep_view(), source@.variants, universe@)
                == Result::<Seq<PackageInstanceV>, PlanErrorV>::Err(e@),
        },
{
    let ghost lseq = loaded.deep_view();
    let ghost vars = source@.variants;
    let empty_insts: Vec<PackageInstance> = Vec::new();
    proof {
        assert(lseq.skip(loaded.len() as int) =~= Seq::<LoadedPackageV>::empty());
        assert(empty_insts.deep_view() =~= Seq::<PackageInstanceV>::empty());
        assert(process_packages(lseq.skip(loaded.len() as int), vars, universe@) == Result::<
            Seq<PackageInstanceV>,
            PlanErrorV,
        >::Ok(Seq::empty()));
    }
    let mut res: Result<Vec<PackageInstance>, PlanError> = Result::Ok(empty_insts);
    let mut i: usize = loaded.len();
    while i > 0
        invariant
            i <= loaded.len(),
            lseq == loaded.deep_view(),
            vars == source@.variants,
            lseq.len() == loaded.len(),
            budgets_ok(loaded.deep_view(), universe@),
            match res {
                Result::Ok(v) => process_packages(lseq.skip(i as int), vars, universe@)
                    == Result::<Seq<PackageInstanceV>, PlanErrorV>::Ok(v.deep_view()),
                Result::Err(e) => process_packages(lseq.skip(i as int), vars, universe@)
                    == Result::<Seq<PackageInstanceV>, PlanErrorV>::Err(e@),
            },
        decreases i,
    {
        i = i - 1;
        let lp = &loaded[i];
        proof {
            assert(loaded.deep_view()[i as int] == loaded@[i as int]@);
            assert(lseq[i as int] == loaded@[i as int]@);
            assert(lseq.skip(i as int)[0] == lseq[i as int]);
            assert(lseq.skip(i as int).drop_first() =~= lseq.skip(i as int + 1));
            assert(lp@ == lseq[i as int]);
            assert(lp.package@ == lseq[i as int].package);
            assert(budget_of(loaded.deep_view()[i as int].package, universe@) <= usize::MAX);
            assert(budget_of(lp.package@, universe@) <= usize::MAX);
        }
        let step: Result<Vec<PackageInstance>, PlanError> = match resolve_all(
            &lp.package,
            universe,
        ) {
            Result::Err(e) => Result::Err(PlanError::Resolve(lp.file.clone(), e)),
            Result::Ok(table) => {
                let insts = lp.package.instantiate_all(&source.variants, &table);
                match scan_invalid(&insts, &lp.file, &lp.text) {
                    Option::Some(d) => Result::Err(PlanError::Invalid(d)),
                    Option::None => Result::Ok(insts),
                }
            },
        };
        proof {
            match step {
                Result::Ok(ref v) => {
                    assert(package_outcome(lseq[i as int], vars, universe@) == Result::<
                        Seq<PackageInstanceV>,
                        PlanErrorV,
                    >::Ok(v.deep_view()));
                },
                Result::Err(ref e) => {
                    assert(package_outcome(lseq[i as int], vars, universe@) == Result::<
                        Seq<PackageInstanceV>,
                        PlanErrorV,
                    >::Err(e@));
                },
            }
        }
        res = match (step, res) {
            (Result::Err(e), _) => Result::Err(e),
            (Result::Ok(mut v), Result::Ok(mut prev)) => {
                let ghost vdeep = v.deep_view();
                let ghost pdeep = prev.deep_view();
                v.append(&mut prev);
                proof {
                    assert(v.deep_view() =~= vdeep + pdeep);
                }
                Result::Ok(v)
            },
            (Result::Ok(_), Result::Err(e)) => Result::Err(e),
        };
    }
    proof {
        assert(lseq.skip(0) =~= lseq);
    }
    res
}

/// Runs load-free checking for one source: fragment resolution, variant
/// expansion and validation of every instance of every package, without
/// producing any output; the first diagnostic aborts the run.
pub fn check(source: &Source, loaded: &Vec<LoadedPackage>, universe: &PackageTable) -> (r: Result<
    (),
    PlanError,
>)
    requires
        budgets_ok(loaded.deep_view(), universe@),
    ensures
        match r {
            Result::Ok(_) => process_packages(
                loaded.deep_view(),
                source@.variants,
                universe@,
            ) is Ok,
            Result::Err(e) => process_packages(loaded.deep_view(), source@.variants, universe@)
                == Result::<Seq<PackageInstanceV>, PlanErrorV>::Err(e@),
        },
{
    match collect_instances(source, loaded, universe) {
        Result::Ok(_) => Result::Ok(()),
        Result::Err(e) => Result::Err(e),
    }
}

/// The service rules carried by a run of instances, in instance order: one
/// rule per service-typed instance, naming its unit and the two refusal
/// flags.
pub open spec fn service_rules_of(insts: Seq<PackageInstanceV>) -> Seq<ServiceRuleV>
    decreases insts.len(),
{
    if insts.len() == 0 {
        Seq::empty()
    } else {
        (match insts[0].spec {
            PackageSpec::Service(s) => seq![
                ServiceRuleV {
                    unit_name: insts[0].name,
                    refuse_manual_start: s.refuse_manual_start,
                    refuse_manual_stop: s.refuse_manual_stop,
                },
            ],
            PackageSpec::Base => Seq::empty(),
        }) + service_rules_of(insts.drop_first())
    }
}

proof fn lemma_service_rules_push(insts: Seq<PackageInstanceV>, x: PackageInstanceV)
    ensures
        service_rules_of(insts.push(x)) =~= service_rules_of(insts) + (match x.spec {
            PackageSpec::Service(s) => seq![
                ServiceRuleV {
                    unit_name: x.name,
                    refuse_manual_start: s.refuse_manual_start,
                    refuse_manual_stop: s.refuse_manual_stop,
                },
            ],
            PackageSpec::Base => Seq::<ServiceRuleV>::empty(),
        }),
    decreases insts.len(),
{
    if insts.len() == 0 {
        assert(insts.push(x)[0] == x);
        assert(insts.push(x).drop_first() =~= Seq::<PackageInstanceV>::empty());
        assert(service_rules_of(insts.push(x).drop_first()) =~= Seq::<ServiceRuleV>::empty());
        assert(service_rules_of(insts) =~= Seq::<ServiceRuleV>::empty());
    } else {
        assert(insts.push(x).drop_first() =~= insts.drop_first().push(x));
        assert(insts.push(x)[0] == insts[0]);
        lemma_service_rules_push(insts.drop_first(), x);
        assert(service_rules_of(insts.push(x)) =~= (match insts[0].spec {
            PackageSpec::Service(s) => seq![
                ServiceRuleV {
                    unit_name: insts[0].name,
                    refuse_manual_start: s.refuse_manual_start,
                    refuse_manual_stop: s.refuse_manual_stop,
                },
            ],
            PackageSpec::Base => Seq::<ServiceRuleV>::empty(),
        }) + service_rules_of(insts.drop_first().push(x)));
    }
}

/// Extracts the service rule of every service-typed instance, in instance
/// order.
pub fn extract_service_rules(insts: &Vec<PackageInstance>) -> (r: Vec<ServiceRule>)
    ensures
        r.deep_view() == service_rules_of(insts.deep_view()),
{
    let mut out: Vec<ServiceRule> = Vec::new();
    proof {
        assert(insts.deep_view().take(0) =~= Seq::<PackageInstanceV>::empty());
        assert(out.deep_view() =~= service_rules_of(insts.deep_view().take(0)));
    }
    let mut i: usize = 0;
    while i < insts.len()
        invariant
            i <= insts.len(),
            insts.deep_view().len() == insts.len(),
            out.deep_view() == service_rules_of(insts.deep_view().take(i as int)),
        decreases insts.len() - i,
    {
        let ghost done = insts.deep_view().take(i as int);
        proof {
            assert(insts.deep_view()[i as int] == insts@[i as int]@);
            assert(insts.deep_view().take(i as int + 1) =~= done.push(
                insts.deep_view()[i as int],
            ));
            lemma_service_rules_push(done, insts.deep_view()[i as int]);
        }
        match insts[i].as_service() {
            Option::Some(si) => {
                out.push(
                    ServiceRule {
                        unit_name: si.name,
                        refuse_manual_start: si.spec.refuse_manual_start,
                        refuse_manual_stop: si.spec.refuse_manual_stop,
                    },
                );
                proof {
                    assert(out.deep_view() =~= service_rules_of(
                        insts.deep_view().take(i as int + 1),
                    ));
                }
            },
            Option::None => {
                proof {
                    assert(out.deep_view() =~= service_rules_of(
                        insts.deep_view().take(i as int + 1),
                    ));
                }
            },
        }
        i = i + 1;
    }
    proof {
        assert(insts.deep_view().take(insts.len() as int) =~= insts.deep_view());
    }
    out
}


/// Path of the specification file of a plain (fragment) name under `dir`.
pub open spec fn plain_sps(dir: Seq<char>, name: Seq<char>) -> Seq<char> {
    dir + "/"@ + name + ".sps"@
}

/// The specification-file paths of a resolved table's entries, in
/// resolution order.
pub open spec fn sps_paths(t: Seq<PackageEntryV>, dir: Seq<char>) -> Seq<Seq<char>> {
    Seq::new(t.len(), |i: int| plain_sps(dir, t[i].name))
}

/// The files one loaded package consults: its own file, then the file of
/// every fragment it resolves, in resolution order.
pub open spec fn package_dep_files(
    lp: LoadedPackageV,
    universe: Seq<PackageEntryV>,
    dir: Seq<char>,
) -> Seq<Seq<char>> {
    seq![lp.file] + (match resolution_of(lp.package, universe) {
        Result::Ok(t) => sps_paths(t, dir),
        Result::Err(_) => Seq::empty(),
    })
}

/// Every file the packages consult, package by package, duplicates kept.
pub open spec fn dep_candidates(
    loaded: Seq<LoadedPackageV>,
    universe: Seq<PackageEntryV>,
    dir: Seq<char>,
) -> Seq<Seq<char>>
    decreases loaded.len(),
{
    if loaded.len() == 0 {
        Seq::empty()
    } else {
        package_dep_files(loaded[0], universe, dir) + dep_candidates(
            loaded.drop_first(),
            universe,
            dir,
        )
    }
}

/// Whether `x` occurs in `items`.
pub open spec fn occurs_in(items: Seq<Seq<char>>, x: Seq<char>) -> bool {
    exists|j: int| 0 <= j < items.len() && items[j] == x
}

/// `acc` extended with every item of `items` it lacks, first seen first.
pub open spec fn dedup_into(acc: Seq<Seq<char>>, items: Seq<Seq<char>>) -> Seq<Seq<char>>
    decreases items.len(),
{
    if items.len() == 0 {
        acc
    } else {
        dedup_into(
            if occurs_in(acc, items[0]) {
                acc
            } else {
                acc.push(items[0])
            },
            items.drop_first(),
        )
    }
}

/// The dependency set of one source: every consulted specification file,
/// each once, in first-consultation order.
pub open spec fn dep_files_of(
    loaded: Seq<LoadedPackageV>,
    universe: Seq<PackageEntryV>,
    dir: Seq<char>,
) -> Seq<Seq<char>> {
    dedup_into(Seq::empty(), dep_candidates(loaded, universe, dir))
}

/// Whether `x` occurs among the strings of `items`.
fn contains_string(items: &Vec<String>, x: &String) -> (r: bool)
    ensures
        r == occurs_in(items.deep_view(), x@),
{
    let mut i: usize = 0;
    while i < items.len()
        invariant
            i <= items.len(),
            items.deep_view().len() == items.len(),
            forall|j: int| 0 <= j < i ==> items.deep_view()[j] != x@,
        decreases items.len() - i,
    {
        proof {
            assert(items.deep_view()[i as int] == items@[i as int]@);
        }
        if items[i].eq(x) {
            return true;
        }
        i = i + 1;
    }
    false
}

/// Drops every repeated string, keeping first occurrences in order.
fn dedup_strings(items: Vec<String>) -> (r: Vec<String>)
    ensures
        r.deep_view() == dedup_into(Seq::empty(), items.deep_view()),
{
    let ghost iseq = items.deep_view();
    let mut out: Vec<String> = Vec::new();
    proof {
        assert(out.deep_view() =~= Seq::<Seq<char>>::empty());
        assert(iseq.skip(0) =~= iseq);
    }
    let mut i: usize = 0;
    while i < items.len()
        invariant
            i <= items.len(),
            iseq == items.deep_view(),
            iseq.len() == items.len(),
            dedup_into(out.deep_view(), iseq.skip(i as int)) == dedup_into(
                Seq::empty(),
                iseq,
            ),
        decreases items.len() - i,
    {
        let ghost odeep = out.deep_view();
        proof {
            assert(iseq.skip(i as int)[0] == iseq[i as int]);
            assert(iseq.skip(i as int).drop_first() =~= iseq.skip(i as int + 1));
            assert(items.deep_view()[i as int] == items@[i as int]@);
        }
        if !contains_string(&out, &items[i]) {
            out.push(items[i].clone());
            proof {
                assert(out.deep_view() =~= odeep.push(iseq[i as int]));
            }
        }
        i = i + 1;
    }
    proof {
        assert(iseq.skip(items.len() as int) =~= Seq::<Seq<char>>::empty());
    }
    out
}

/// Gathers every specification file the source's packages consult, each
/// once, in first-consultation order.
pub fn compute_dep_files(
    loaded: &Vec<LoadedPackage>,
    universe: &PackageTable,
    source_dir: &str,
) -> (r: Vec<String>)
    requires
        budgets_ok(loaded.deep_view(), universe@),
    ensures
        r.deep_view() == dep_files_of(loaded.deep_view(), universe@, source_dir@),
{
    let ghost lseq = loaded.deep_view();
    let mut cands: Vec<String> = Vec::new();
    let mut i: usize = loaded.len();
    proof {
        assert(lseq.skip(loaded.len() as int) =~= Seq::<LoadedPackageV>::empty());
        assert(cands.deep_view() =~= dep_candidates(
            lseq.skip(loaded.len() as int),
            universe@,
            source_dir@,
        ));
    }
    while i > 0
        invariant
            i <= loaded.len(),
            lseq == loaded.deep_view(),
            lseq.len() == loaded.len(),
            budgets_ok(loaded.deep_view(), universe@),
            cands.deep_view() == dep_candidates(lseq.skip(i as int), universe@, source_dir@),
        decreases i,
    {
        i = i - 1;
        let lp = &loaded[i];
        proof {
            assert(loaded.deep_view()[i as int] == loaded@[i as int]@);
            assert(lseq.skip(i as int)[0] == lseq[i as int]);
            assert(lseq.skip(i as int).drop_first() =~= lseq.skip(i as int + 1));
            assert(lp@ == lseq[i as int]);
            assert(budget_of(lp.package@, universe@) <= usize::MAX);
        }
        let mut own: Vec<String> = Vec::new();
        own.push(lp.file.clone());
        match resolve_all(&lp.package, universe) {
            Result::Ok(table) => {
                let mut j: usize = 0;
                while j < table.entries.len()
                    invariant
                        j <= table.entries.len(),
                        table@.len() == table.entries.len(),
                        own.deep_view().len() == j + 1,
                        own.deep_view()[0] == lp@.file,
                        forall|k: int|
                            0 <= k < j ==> own.deep_view()[k + 1] == plain_sps(
                                source_dir@,
                                (#[trigger] table@[k]).name,
                            ),
                    decreases table.entries.len() - j,
                {
                    proof {
                        assert(table@[j as int] == table.entries@[j as int]@);
                    }
                    let mut path = String::from_str(source_dir);
                    path.append("/");
                    path.append(table.entries[j].name.as_str());
                    path.append(".sps");
                    proof {
                        assert(path@ =~= plain_sps(source_dir@, table@[j as int].name));
                    }
                    own.push(path);
                    j = j + 1;
                }
                proof {
                    assert(own.deep_view() =~= package_dep_files(
                        lseq[i as int],
                        universe@,
                        source_dir@,
                    ));
                }
            },
            Result::Err(_) => {
                proof {
                    assert(own.deep_view() =~= package_dep_files(
                        lseq[i as int],
                        universe@,
                        source_dir@,
                    ));
                }
            },
        }
        let ghost odeep = own.deep_view();
        let ghost cdeep = cands.deep_view();
        own.append(&mut cands);
        cands = own;
        proof {
            assert(cands.deep_view() =~= odeep + cdeep);
            assert(cands.deep_view() =~= dep_candidates(
                lseq.skip(i as int),
                universe@,
                source_dir@,
            ));
        }
    }
    proof {
        assert(lseq.skip(0) =~= lseq);
    }
    dedup_strings(cands)
}

/// Everything one source's generation pass owes, as values: directory and
/// file paths, the synthesized texts, and the validated instances. The
/// caller materializes it: creates the directories, writes each text, runs
/// the per-file generators over the instances, and appends the dependency
/// stanza when present.
pub struct SourcePlan {
    /// Destination directory of the source: `<dest>/<name>-<upstream>`.
    pub dir: String,
    /// The packaging subdirectory: `<dir>/debian`.
    pub deb_dir: String,
    /// Where the source changelog is read from; its absence is tolerated.
    pub changelog_path: String,
    /// The upstream version, revision suffix stripped.
    pub upstream_version: String,
    /// The control-metadata header block.
    pub control_text: String,
    /// The build-compatibility marker content.
    pub compat_text: String,
    /// The synthesized build-orchestration script.
    pub rules_text: String,
    /// Every validated instance, in package-then-variant order.
    pub instances: Vec<PackageInstance>,
    /// The dependency stanza, when export was requested.
    pub dep_stanza: Option<String>,
}

/// Compiles one source into its output plan: resolves, expands and
/// validates every package (fail-fast), strips the upstream version out of
/// the changelog version, and synthesizes every owed path and text.
pub fn plan_source(
    dest: &str,
    source_dir: &str,
    name: &str,
    source: &Source,
    maintainer: &str,
    version: &str,
    loaded: &Vec<LoadedPackage>,
    universe: &PackageTable,
    want_deps: bool,
) -> (r: Result<SourcePlan, PlanError>)
    requires
        budgets_ok(loaded.deep_view(), universe@),
    ensures
        match r {
            Result::Ok(plan) => {
                &&& process_packages(loaded.deep_view(), source@.variants, universe@)
                    == Result::<Seq<PackageInstanceV>, PlanErrorV>::Ok(
                    plan.instances.deep_view(),
                )
                &&& plan.upstream_version@ == upstream_of(version@)
                &&& plan.dir@ == dest@ + "/"@ + name@ + "-"@ + upstream_of(version@)
                &&& plan.deb_dir@ == dest@ + "/"@ + name@ + "-"@ + upstream_of(version@)
                    + "/debian"@
                &&& plan.changelog_path@ == source_dir@ + "/"@ + name@ + ".changelog"@
                &&& plan.control_text@ == control_text(name@, source@, maintainer@, true)
                &&& plan.compat_text@ == "12\n"@
                &&& plan.rules_text@ == rules_text(
                    source@,
                    service_rules_of(plan.instances.deep_view()),
                )
                &&& (want_deps ==> (plan.dep_stanza matches Option::Some(s) && s@
                    == dep_stanza_text(
                    dest@,
                    name@,
                    dep_files_of(loaded.deep_view(), universe@, source_dir@),
                )))
                &&& (!want_deps ==> plan.dep_stanza is None)
            },
            Result::Err(e) => process_packages(loaded.deep_view(), source@.variants, universe@)
                == Result::<Seq<PackageInstanceV>, PlanErrorV>::Err(e@),
        },
{
    let instances = match collect_instances(source, loaded, universe) {
        Result::Ok(v) => v,
        Result::Err(e) => {
            return Result::Err(e);
        },
    };
    let upstream_version = String::from_str(get_upstream_version(version));

    let mut dir = String::from_str(dest);
    dir.append("/");
    dir.append(name);
    dir.append("-");
    dir.append(upstream_version.as_str());
    proof {
        assert(dir@ =~= dest@ + "/"@ + name@ + "-"@ + upstream_of(version@));
    }
    let mut deb_dir = dir.clone();
    deb_dir.append("/debian");

    let mut changelog_path = String::from_str(source_dir);
    changelog_path.append("/");
    changelog_path.append(name);
    changelog_path.append(".changelog");
    proof {
        assert(changelog_path@ =~= source_dir@ + "/"@ + name@ + ".changelog"@);
    }

    let control = render_control(name, source, maintainer, true);
    let compat = String::from_str("12\n");
    let services = extract_service_rules(&instances);
    let rules = render_rules(source, &services);

    let dep_stanza = if want_deps {
        let deps = compute_dep_files(loaded, universe, source_dir);
        Option::Some(render_dep_stanza(dest, name, &deps))
    } else {
        Option::None
    };

    Result::Ok(
        SourcePlan {
            dir,
            deb_dir,
            changelog_path,
            upstream_version,
            control_text: control,
            compat_text: compat,
            rules_text: rules,
            instances,
            dep_stanza,
        },
    )
}

/// The fixed, ordered list of per-instance output kinds the generation
/// pass drives; each names the extension of one generated file.
pub open spec fn generator_kind_list() -> Seq<Seq<char>> {
    seq![
        "config"@,
        "install"@,
        "dirs"@,
        "links"@,
        "manpages"@,
        "preinst"@,
        "postinst"@,
        "prerm"@,
        "postrm"@,
        "templates"@,
        "triggers"@,
    ]
}

/// The ordered output kinds, one lazily created file per instance each.
pub fn generator_kinds() -> (r: Vec<String>)
    ensures
        r.deep_view() == generator_kind_list(),
{
    let mut out: Vec<String> = Vec::new();
    out.push(String::from_str("config"));
    out.push(String::from_str("install"));
    out.push(String::from_str("dirs"));
    out.push(String::from_str("links"));
    out.push(String::from_str("manpages"));
    out.push(String::from_str("preinst"));
    out.push(String::from_str("postinst"));
    out.push(String::from_str("prerm"));
    out.push(String::from_str("postrm"));
    out.push(String::from_str("templates"));
    out.push(String::from_str("triggers"));
    proof {
        assert(out.deep_view() =~= generator_kind_list());
    }
    out
}

} // verus!
