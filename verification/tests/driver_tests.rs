use debcrafter::driver::{check, generator_kinds, plan_source, LoadedPackage, PlanError};
use debcrafter::model::{modes_conflict, resolve_maintainer, Source};
use debcrafter::package::{Package, PackageSpec, PackageTable, ServiceSpec};
use debcrafter::types::{Variant, VPackageName};

fn source_with(packages: Vec<VPackageName>, variants: Vec<Variant>) -> Source {
    Source {
        section: String::from("net"),
        build_depends: Vec::new(),
        with_components: Vec::new(),
        buildsystem: None,
        autoconf_params: Vec::new(),
        variants,
        packages,
        skip_debug_symbols: false,
        skip_strip: false,
    }
}

fn loaded(name: &str, pkg: Package) -> LoadedPackage {
    LoadedPackage {
        package: pkg,
        file: format!("/specs/{}.sps", name),
        text: format!("name = \"{}\"\nsummary = \"s\"\n", name),
    }
}

fn valid_pkg(name: VPackageName) -> Package {
    Package {
        name,
        fragments: Vec::new(),
        summary: Some(String::from("a fine package")),
        depends: Vec::new(),
        spec: PackageSpec::Base,
    }
}

#[test]
fn check_accepts_a_valid_source() {
    let source = source_with(vec![VPackageName::plain(String::from("good"))], Vec::new());
    let packages = vec![loaded("good", valid_pkg(VPackageName::plain(String::from("good"))))];
    let universe = PackageTable::new();
    assert!(check(&source, &packages, &universe).is_ok());
}

#[test]
fn check_reports_missing_summary_with_field_and_file() {
    let mut bad = valid_pkg(VPackageName::plain(String::from("bad")));
    bad.summary = None;
    let source = source_with(vec![VPackageName::plain(String::from("bad"))], Vec::new());
    let packages = vec![LoadedPackage {
        package: bad,
        file: String::from("/specs/bad.sps"),
        text: String::from("name = \"bad\"\n"),
    }];
    let universe = PackageTable::new();
    match check(&source, &packages, &universe) {
        Err(PlanError::Invalid(diag)) => {
            assert_eq!(diag.field, "summary");
            assert_eq!(diag.file, "/specs/bad.sps");
            assert_eq!(diag.message, "missing required field");
            assert!(diag.location.is_none());
        }
        other => panic!("expected a validation diagnostic, got {:?}", other),
    }
}

#[test]
fn check_locates_a_malformed_name_field() {
    let bad = valid_pkg(VPackageName::plain(String::from("Bad_Name")));
    let source = source_with(vec![VPackageName::plain(String::from("Bad_Name"))], Vec::new());
    let packages = vec![LoadedPackage {
        package: bad,
        file: String::from("/specs/bad.sps"),
        text: String::from("name = \"Bad_Name\"\nsummary = \"s\"\n"),
    }];
    let universe = PackageTable::new();
    match check(&source, &packages, &universe) {
        Err(PlanError::Invalid(diag)) => {
            assert_eq!(diag.field, "name");
            assert_eq!(diag.message, "malformed package name");
            assert_eq!(diag.location, Some(0));
        }
        other => panic!("expected a validation diagnostic, got {:?}", other),
    }
}

#[test]
fn plan_source_synthesizes_the_whole_plan() {
    let mut svc = valid_pkg(VPackageName::plain(String::from("mysvc")));
    svc.spec = PackageSpec::Service(ServiceSpec {
        refuse_manual_start: true,
        refuse_manual_stop: false,
    });
    let mut frag_universe = PackageTable::new();
    let mut fragment = valid_pkg(VPackageName::plain(String::from("common")));
    fragment.depends = vec![String::from("shared-dep")];
    frag_universe.insert(String::from("common"), fragment);
    let mut svc_with_frag = svc;
    svc_with_frag.fragments = vec![String::from("common")];

    let source = source_with(vec![VPackageName::plain(String::from("mysvc"))], Vec::new());
    let packages = vec![loaded("mysvc", svc_with_frag)];

    let plan = plan_source(
        "/out",
        "/specs",
        "mysrc",
        &source,
        "Jane Doe <jane@example.com>",
        "2.0-7",
        &packages,
        &frag_universe,
        true,
    )
    .expect("planning succeeds");

    assert_eq!(plan.upstream_version, "2.0");
    assert_eq!(plan.dir, "/out/mysrc-2.0");
    assert_eq!(plan.deb_dir, "/out/mysrc-2.0/debian");
    assert_eq!(plan.changelog_path, "/specs/mysrc.changelog");
    assert_eq!(plan.compat_text, "12\n");
    assert!(plan.control_text.starts_with("Source: mysrc\nSection: net\n"));
    assert_eq!(plan.instances.len(), 1);
    assert_eq!(plan.instances[0].depends, vec![String::from("shared-dep")]);
    assert!(plan
        .rules_text
        .contains("\tdh_installsystemd --name=mysvc --no-start\n"));
    assert_eq!(
        plan.dep_stanza.as_deref(),
        Some("/out/debcrafter-mysrc.stamp: /specs/mysvc.sps /specs/common.sps\n\n")
    );
}

#[test]
fn plan_source_without_dep_export_has_no_stanza() {
    let source = source_with(vec![VPackageName::plain(String::from("good"))], Vec::new());
    let packages = vec![loaded("good", valid_pkg(VPackageName::plain(String::from("good"))))];
    let universe = PackageTable::new();
    let plan = plan_source(
        "/out", "/specs", "src", &source, "m", "1.0", &packages, &universe, false,
    )
    .expect("planning succeeds");
    assert!(plan.dep_stanza.is_none());
    assert_eq!(plan.upstream_version, "1.0");
}

#[test]
fn templated_source_plans_one_instance_per_variant() {
    let pkg = valid_pkg(VPackageName::templated(String::from("node-"), String::new()));
    let source = source_with(
        vec![VPackageName::templated(String::from("node-"), String::new())],
        vec![
            Variant::new(String::from("mainnet")),
            Variant::new(String::from("testnet")),
        ],
    );
    let packages = vec![loaded("node-@variant@", pkg)];
    let universe = PackageTable::new();
    let plan = plan_source(
        "/out", "/specs", "src", &source, "m", "1.0", &packages, &universe, false,
    )
    .expect("planning succeeds");
    assert_eq!(plan.instances.len(), 2);
    assert_eq!(plan.instances[0].name, "node-mainnet");
    assert_eq!(plan.instances[1].name, "node-testnet");
}

#[test]
fn conflicting_modes_are_rejected_before_processing() {
    assert!(modes_conflict(true, true));
    assert!(!modes_conflict(true, false));
    assert!(!modes_conflict(false, true));
    assert!(!modes_conflict(false, false));
}

#[test]
fn maintainer_resolution_prefers_the_explicit_identity() {
    assert_eq!(
        resolve_maintainer(Some(String::from("doc")), Some(String::from("env"))),
        Some(String::from("doc"))
    );
    assert_eq!(
        resolve_maintainer(None, Some(String::from("env"))),
        Some(String::from("env"))
    );
    assert_eq!(resolve_maintainer(None, None), None);
}

#[test]
fn generator_kind_list_is_fixed_and_ordered() {
    let kinds = generator_kinds();
    let expected = vec![
        "config",
        "install",
        "dirs",
        "links",
        "manpages",
        "preinst",
        "postinst",
        "prerm",
        "postrm",
        "templates",
        "triggers",
    ];
    assert_eq!(kinds, expected);
}
