use debcrafter::model::Source;
use debcrafter::render::{render_control, render_dep_stanza, render_rules, ServiceRule};

fn plain_source() -> Source {
    Source {
        section: String::from("net"),
        build_depends: Vec::new(),
        with_components: Vec::new(),
        buildsystem: None,
        autoconf_params: Vec::new(),
        variants: Vec::new(),
        packages: Vec::new(),
        skip_debug_symbols: false,
        skip_strip: false,
    }
}

#[test]
fn rules_minimal_source() {
    let source = plain_source();
    let rules = render_rules(&source, &Vec::new());
    assert_eq!(rules, "#!/usr/bin/make -f\n\n%:\n\tdh $@\n");
}

#[test]
fn rules_with_components_and_buildsystem() {
    let mut source = plain_source();
    source.with_components = vec![String::from("systemd"), String::from("python3")];
    source.buildsystem = Some(String::from("cmake"));
    let rules = render_rules(&source, &Vec::new());
    assert_eq!(
        rules,
        "#!/usr/bin/make -f\n\n%:\n\tdh $@ --with systemd --with python3 --buildsystem cmake\n"
    );
}

#[test]
fn rules_service_suppressions_stay_apart() {
    let source = plain_source();
    let services = vec![
        ServiceRule {
            unit_name: String::from("alpha"),
            refuse_manual_start: true,
            refuse_manual_stop: false,
        },
        ServiceRule {
            unit_name: String::from("beta"),
            refuse_manual_start: false,
            refuse_manual_stop: true,
        },
    ];
    let rules = render_rules(&source, &services);
    let expected = "#!/usr/bin/make -f\n\n%:\n\tdh $@\n\noverride_dh_installsystemd:\n\
                    \tdh_installsystemd --name=alpha --no-start\n\
                    \tdh_installsystemd --name=beta --no-stop-on-upgrade --no-restart-after-upgrade\n";
    assert_eq!(rules, expected);
    let alpha_line = rules
        .lines()
        .find(|l| l.contains("--name=alpha"))
        .expect("alpha line present");
    assert!(alpha_line.contains("--no-start"));
    assert!(!alpha_line.contains("--no-stop-on-upgrade"));
    assert!(!alpha_line.contains("--no-restart-after-upgrade"));
    let beta_line = rules
        .lines()
        .find(|l| l.contains("--name=beta"))
        .expect("beta line present");
    assert!(!beta_line.contains("--no-start\n"));
    assert!(beta_line.contains("--no-stop-on-upgrade"));
    assert!(beta_line.contains("--no-restart-after-upgrade"));
}

#[test]
fn rules_configure_override_lists_params_in_order() {
    let mut source = plain_source();
    source.autoconf_params = vec![String::from("--without-gui"), String::from("--with-zmq")];
    let rules = render_rules(&source, &Vec::new());
    assert_eq!(
        rules,
        "#!/usr/bin/make -f\n\n%:\n\tdh $@\n\noverride_dh_auto_configure:\n\
         \tdh_auto_configure -- --without-gui --with-zmq\n"
    );
    assert_eq!(rules.matches("override_dh_auto_configure:").count(), 1);
}

#[test]
fn rules_empty_params_produce_no_configure_override() {
    let source = plain_source();
    let rules = render_rules(&source, &Vec::new());
    assert!(!rules.contains("override_dh_auto_configure"));
}

#[test]
fn rules_skip_flags_emit_empty_overrides() {
    let mut source = plain_source();
    source.skip_debug_symbols = true;
    source.skip_strip = true;
    let rules = render_rules(&source, &Vec::new());
    assert_eq!(
        rules,
        "#!/usr/bin/make -f\n\n%:\n\tdh $@\n\noverride_dh_dwz:\n\noverride_dh_strip:\n"
    );
}

#[test]
fn control_header_block() {
    let mut source = plain_source();
    source.build_depends = vec![String::from("libssl-dev"), String::from("pkg-config")];
    let control = render_control("mypkg", &source, "Jane Doe <jane@example.com>", true);
    assert_eq!(
        control,
        "Source: mypkg\nSection: net\nPriority: optional\n\
         Maintainer: Jane Doe <jane@example.com>\n\
         Build-Depends: debhelper (>= 9),\n               debhelper (>= 12.1.1),\n               \
         libssl-dev,\n               pkg-config\n"
    );
}

#[test]
fn control_header_without_systemd_dep() {
    let source = plain_source();
    let control = render_control("mypkg", &source, "m", false);
    assert_eq!(
        control,
        "Source: mypkg\nSection: net\nPriority: optional\nMaintainer: m\n\
         Build-Depends: debhelper (>= 9)\n"
    );
}

#[test]
fn dep_stanza_format() {
    let deps = vec![
        String::from("/specs/a.sps"),
        String::from("/specs/b.sps"),
    ];
    let stanza = render_dep_stanza("/out", "mysrc", &deps);
    assert_eq!(
        stanza,
        "/out/debcrafter-mysrc.stamp: /specs/a.sps /specs/b.sps\n\n"
    );
}
