use debcrafter::package::{Package, PackageSpec, PackageTable, ServiceSpec};
use debcrafter::types::{Variant, VPackageName};

fn base_package(name: VPackageName) -> Package {
    Package {
        name,
        fragments: Vec::new(),
        summary: Some(String::from("a test package")),
        depends: vec![String::from("libc6")],
        spec: PackageSpec::Base,
    }
}

#[test]
fn untemplated_package_yields_one_instance_despite_variants() {
    let pkg = base_package(VPackageName::plain(String::from("plainpkg")));
    let variants = vec![
        Variant::new(String::from("alpha")),
        Variant::new(String::from("beta")),
        Variant::new(String::from("gamma")),
    ];
    let table = PackageTable::new();
    let instances = pkg.instantiate_all(&variants, &table);
    assert_eq!(instances.len(), 1);
    assert_eq!(instances[0].name, "plainpkg");
    assert!(instances[0].variant.is_none());
}

#[test]
fn templated_package_yields_one_instance_per_variant() {
    let pkg = base_package(VPackageName::templated(
        String::from("node-"),
        String::from("-daemon"),
    ));
    let variants = vec![
        Variant::new(String::from("mainnet")),
        Variant::new(String::from("testnet")),
    ];
    let table = PackageTable::new();
    let instances = pkg.instantiate_all(&variants, &table);
    assert_eq!(instances.len(), 2);
    assert_eq!(instances[0].name, "node-mainnet-daemon");
    assert_eq!(instances[1].name, "node-testnet-daemon");
    assert_ne!(instances[0].name, instances[1].name);
}

#[test]
fn templated_package_without_variants_closes_the_slot() {
    let pkg = base_package(VPackageName::templated(String::from("node-"), String::new()));
    let variants: Vec<Variant> = Vec::new();
    let table = PackageTable::new();
    let instances = pkg.instantiate_all(&variants, &table);
    assert_eq!(instances.len(), 1);
    assert_eq!(instances[0].name, "node-");
}

#[test]
fn fragment_depends_merge_in_reference_order() {
    let mut table = PackageTable::new();
    let mut frag_a = base_package(VPackageName::plain(String::from("frag-a")));
    frag_a.depends = vec![String::from("dep-a1"), String::from("dep-a2")];
    let mut frag_b = base_package(VPackageName::plain(String::from("frag-b")));
    frag_b.depends = vec![String::from("dep-b")];
    table.insert(String::from("frag-a"), frag_a);
    table.insert(String::from("frag-b"), frag_b);

    let mut pkg = base_package(VPackageName::plain(String::from("host")));
    pkg.fragments = vec![String::from("frag-b"), String::from("frag-a")];
    let instance = pkg.instantiate(None, &table);
    assert_eq!(
        instance.depends,
        vec![
            String::from("libc6"),
            String::from("dep-b"),
            String::from("dep-a1"),
            String::from("dep-a2"),
        ]
    );
}

#[test]
fn service_instance_refinement() {
    let mut pkg = base_package(VPackageName::plain(String::from("mysvc")));
    pkg.spec = PackageSpec::Service(ServiceSpec {
        refuse_manual_start: true,
        refuse_manual_stop: false,
    });
    let table = PackageTable::new();
    let instance = pkg.instantiate(None, &table);
    let svc = instance.as_service().expect("service package must refine");
    assert_eq!(svc.name, "mysvc");
    assert!(svc.spec.refuse_manual_start);
    assert!(!svc.spec.refuse_manual_stop);
    assert_eq!(instance.service_name(), Some(String::from("mysvc")));

    let plain = base_package(VPackageName::plain(String::from("noservice")));
    let plain_instance = plain.instantiate(None, &table);
    assert!(plain_instance.as_service().is_none());
    assert!(plain_instance.service_name().is_none());
}

#[test]
fn sps_path_of_names() {
    let plain = VPackageName::plain(String::from("foo"));
    assert_eq!(plain.sps_path("/specs"), "/specs/foo.sps");
    let templated = VPackageName::templated(String::from("foo-"), String::new());
    assert_eq!(templated.sps_path("/specs"), "/specs/foo-@variant@.sps");
    assert!(templated.is_templated());
    assert!(!plain.is_templated());
}

#[test]
fn table_lookup_finds_first_entry() {
    let mut table = PackageTable::new();
    table.insert(
        String::from("one"),
        base_package(VPackageName::plain(String::from("one"))),
    );
    assert!(table.contains_name(&String::from("one")));
    assert!(!table.contains_name(&String::from("two")));
    assert!(table.get(&String::from("one")).is_some());
    assert!(table.get(&String::from("two")).is_none());
    assert_eq!(table.len(), 1);
}

#[test]
fn variant_substitutes_into_dependency_fields() {
    let mut pkg = base_package(VPackageName::templated(
        String::from("node-"),
        String::new(),
    ));
    pkg.depends = vec![
        String::from("client-@variant@"),
        String::from("libc6"),
    ];
    let variants = vec![Variant::new(String::from("mainnet"))];
    let table = PackageTable::new();
    let instances = pkg.instantiate_all(&variants, &table);
    assert_eq!(instances.len(), 1);
    assert_eq!(
        instances[0].depends,
        vec![String::from("client-mainnet"), String::from("libc6")]
    );
}

#[test]
fn placeholder_without_variant_is_removed() {
    let mut pkg = base_package(VPackageName::plain(String::from("plainpkg")));
    pkg.depends = vec![String::from("client-@variant@x")];
    let table = PackageTable::new();
    let instance = pkg.instantiate(None, &table);
    assert_eq!(instance.depends, vec![String::from("client-x")]);
}
