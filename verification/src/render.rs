//! Text synthesis for the build-orchestration rules script, the control
//! header and the dependency stanza: each output is pinned, character for
//! character, to a ghost model of the text.

use vstd::prelude::*;
use crate::model::SourceV;

verus! {

/// A lightweight record extracted from a service instance, consumed by the
/// rules-script synthesizer: the unit name and the two refusal flags.
pub struct ServiceRule {
    pub unit_name: String,
    pub refuse_manual_start: bool,
    pub refuse_manual_stop: bool,
}

/// Ghost shape of a [`ServiceRule`].
pub struct ServiceRuleV {
    pub unit_name: Seq<char>,
    pub refuse_manual_start: bool,
    pub refuse_manual_stop: bool,
}

impl View for ServiceRule {
    type V = ServiceRuleV;

    open spec fn view(&self) -> ServiceRuleV {
        ServiceRuleV {
            unit_name: self.unit_name@,
            refuse_manual_start: self.refuse_manual_start,
            refuse_manual_stop: self.refuse_manual_stop,
        }
    }
}

impl DeepView for ServiceRule {
    type V = ServiceRuleV;

    open spec fn deep_view(&self) -> ServiceRuleV {
        self.view()
    }
}

/// Concatenation of a list of text pieces, in order.
pub open spec fn concat_texts(items: Seq<Seq<char>>) -> Seq<char>
    decreases items.len(),
{
    if items.len() == 0 {
        Seq::empty()
    } else {
        items[0] + concat_texts(items.drop_first())
    }
}

proof fn lemma_concat_texts_push(items: Seq<Seq<char>>, x: Seq<char>)
    ensures
        concat_texts(items.push(x)) =~= concat_texts(items) + x,
    decreases items.len(),
{
    if items.len() == 0 {
        assert(items.push(x)[0] == x);
        assert(items.push(x).drop_first() =~= Seq::<Seq<char>>::empty());
        assert(concat_texts(items.push(x)) == x + concat_texts(Seq::<Seq<char>>::empty()));
    } else {
        assert(items.push(x).drop_first() =~= items.drop_first().push(x));
        assert(items.push(x)[0] == items[0]);
        lemma_concat_texts_push(items.drop_first(), x);
    }
}

/// Each item with `pre` glued in front, in order.
pub open spec fn prefixed_texts(items: Seq<Seq<char>>, pre: Seq<char>) -> Seq<Seq<char>> {
    Seq::new(items.len(), |i: int| pre + items[i])
}

/// Appends `pre + item` to `out` for every item, in order.
pub fn append_each_prefixed(out: &mut String, pre: &str, items: &Vec<String>)
    ensures
        final(out)@ == old(out)@ + concat_texts(prefixed_texts(items.deep_view(), pre@)),
{
    let mut i: usize = 0;
    proof {
        assert(prefixed_texts(items.deep_view().take(0), pre@) =~= Seq::<Seq<char>>::empty());
    }
    while i < items.len()
        invariant
            i <= items.len(),
            items.deep_view().len() == items.len(),
            out@ == old(out)@ + concat_texts(prefixed_texts(items.deep_view().take(i as int), pre@)),
        decreases items.len() - i,
    {
        let ghost done = prefixed_texts(items.deep_view().take(i as int), pre@);
        out.append(pre);
        out.append(items[i].as_str());
        proof {
            let ghost piece = pre@ + items.deep_view()[i as int];
            assert(prefixed_texts(items.deep_view().take(i as int + 1), pre@) =~= done.push(piece));
            lemma_concat_texts_push(done, piece);
            assert(items.deep_view()[i as int] == items@[i as int]@);
            assert(out@ == old(out)@ + concat_texts(done) + pre@ + items@[i as int]@);
            assert(out@ =~= old(out)@ + (concat_texts(done) + piece));
        }
        i = i + 1;
    }
    proof {
        assert(items.deep_view().take(items.len() as int) =~= items.deep_view());
    }
}

/// The default pass-through build rule: the helper call, every declared
/// addon in set-iteration order, and the configured build system if any.
pub open spec fn dh_line(s: SourceV) -> Seq<char> {
    "\tdh $@"@ + concat_texts(prefixed_texts(s.with_components, " --with "@)) + (
    match s.buildsystem {
        Option::Some(b) => " --buildsystem "@ + b,
        Option::None => Seq::empty(),
    }) + "\n"@
}

/// The unit-install directive owed for one collected service rule: the unit
/// name, `--no-start` exactly when manual start is refused, and the two
/// coupled stop-on-upgrade suppressions exactly when manual stop is refused.
pub open spec fn service_line(r: ServiceRuleV) -> Seq<char> {
    "\tdh_installsystemd --name="@ + r.unit_name + (if r.refuse_manual_start {
        " --no-start"@
    } else {
        Seq::empty()
    }) + (if r.refuse_manual_stop {
        " --no-stop-on-upgrade --no-restart-after-upgrade"@
    } else {
        Seq::empty()
    }) + "\n"@
}

/// The unit-install directives of the collected rules, in order.
pub open spec fn service_lines(rules: Seq<ServiceRuleV>) -> Seq<Seq<char>> {
    Seq::new(rules.len(), |i: int| service_line(rules[i]))
}

/// The systemd override block: present exactly when some instance produced
/// a service rule, holding one unit-install directive per rule, in
/// collection order.
pub open spec fn systemd_block(rules: Seq<ServiceRuleV>) -> Seq<char> {
    if rules.len() > 0 {
        "\noverride_dh_installsystemd:\n"@ + concat_texts(service_lines(rules))
    } else {
        Seq::empty()
    }
}

/// The configure override block: present exactly when the source declares
/// configure parameters, passing them verbatim, in declared order, after a
/// literal separator.
pub open spec fn configure_block(s: SourceV) -> Seq<char> {
    if s.autoconf_params.len() > 0 {
        "\noverride_dh_auto_configure:\n\tdh_auto_configure --"@ + concat_texts(
            prefixed_texts(s.autoconf_params, " "@),
        ) + "\n"@
    } else {
        Seq::empty()
    }
}

/// Empty override suppressing debug-symbol extraction, when requested.
pub open spec fn dwz_block(s: SourceV) -> Seq<char> {
    if s.skip_debug_symbols {
        "\noverride_dh_dwz:\n"@
    } else {
        Seq::empty()
    }
}

/// Empty override suppressing binary stripping, when requested.
pub open spec fn strip_block(s: SourceV) -> Seq<char> {
    if s.skip_strip {
        "\noverride_dh_strip:\n"@
    } else {
        Seq::empty()
    }
}

/// The whole build-orchestration script owed for a source and its collected
/// service rules.
pub open spec fn rules_text(s: SourceV, rules: Seq<ServiceRuleV>) -> Seq<char> {
    "#!/usr/bin/make -f\n\n%:\n"@ + dh_line(s) + systemd_block(rules) + configure_block(s)
        + dwz_block(s) + strip_block(s)
}

/// Synthesizes the build-orchestration script for `source` from the service
/// rules collected across its instances, in collection order.
pub fn render_rules(source: &crate::model::Source, services: &Vec<ServiceRule>) -> (r: String)
    ensures
        r@ == rules_text(source@, services.deep_view()),
{
    let mut out = String::new();
    out.append("#!/usr/bin/make -f\n\n%:\n");
    out.append("\tdh $@");
    append_each_prefixed(&mut out, " --with ", &source.with_components);
    match &source.buildsystem {
        Option::Some(b) => {
            out.append(" --buildsystem ");
            out.append(b.as_str());
        },
        Option::None => {},
    }
    out.append("\n");
    proof {
        assert(out@ =~= "#!/usr/bin/make -f\n\n%:\n"@ + dh_line(source@));
    }
    let ghost base = out@;

    if services.len() > 0 {
        out.append("\noverride_dh_installsystemd:\n");
        let ghost lines = service_lines(services.deep_view());
        let ghost block_head = base + "\noverride_dh_installsystemd:\n"@;
        proof {
            assert(lines.take(0) =~= Seq::<Seq<char>>::empty());
        }
        let mut i: usize = 0;
        while i < services.len()
            invariant
                i <= services.len(),
                services.deep_view().len() == services.len(),
                lines == service_lines(services.deep_view()),
                out@ == block_head + concat_texts(lines.take(i as int)),
            decreases services.len() - i,
        {
            let ghost done = lines.take(i as int);
            let service = &services[i];
            out.append("\tdh_installsystemd --name=");
            out.append(service.unit_name.as_str());
            if service.refuse_manual_start {
                out.append(" --no-start");
            }
            if service.refuse_manual_stop {
                out.append(" --no-stop-on-upgrade --no-restart-after-upgrade");
            }
            out.append("\n");
            proof {
                assert(services.deep_view()[i as int] == services@[i as int]@);
                assert(out@ =~= block_head + concat_texts(done) + service_line(
                    services.deep_view()[i as int],
                ));
                assert(lines.take(i as int + 1) =~= done.push(
                    service_line(services.deep_view()[i as int]),
                ));
                lemma_concat_texts_push(done, service_line(services.deep_view()[i as int]));
                assert(out@ =~= block_head + concat_texts(lines.take(i as int + 1)));
            }
            i = i + 1;
        }
        proof {
            assert(lines.take(services.len() as int) =~= lines);
            assert(out@ =~= base + systemd_block(services.deep_view()));
        }
    }
    proof {
        assert(out@ =~= base + systemd_block(services.deep_view()));
    }
    let ghost base2 = out@;

    if source.autoconf_params.len() > 0 {
        out.append("\noverride_dh_auto_configure:\n\tdh_auto_configure --");
        append_each_prefixed(&mut out, " ", &source.autoconf_params);
        out.append("\n");
    }
    proof {
        assert(out@ =~= base2 + configure_block(source@));
    }
    let ghost base3 = out@;

    if source.skip_debug_symbols {
        out.append("\noverride_dh_dwz:\n");
    }
    if source.skip_strip {
        out.append("\noverride_dh_strip:\n");
    }
    proof {
        assert(out@ =~= base3 + dwz_block(source@) + strip_block(source@));
        assert(out@ =~= rules_text(source@, services.deep_view()));
    }
    out
}

/// The control-metadata header block owed for a source.
pub open spec fn control_text(
    name: Seq<char>,
    s: SourceV,
    maintainer: Seq<char>,
    needs_dh_systemd: bool,
) -> Seq<char> {
    "Source: "@ + name + "\nSection: "@ + s.section + "\nPriority: optional\nMaintainer: "@
        + maintainer + "\nBuild-Depends: debhelper (>= 9)"@ + (if needs_dh_systemd {
        ",\n               debhelper (>= 12.1.1)"@
    } else {
        Seq::empty()
    }) + concat_texts(prefixed_texts(s.build_depends, ",\n               "@))
        + "\n"@
}

/// Synthesizes the control-metadata header block for a source.
pub fn render_control(
    name: &str,
    source: &crate::model::Source,
    maintainer: &str,
    needs_dh_systemd: bool,
) -> (r: String)
    ensures
        r@ == control_text(name@, source@, maintainer@, needs_dh_systemd),
{
    let mut out = String::new();
    out.append("Source: ");
    out.append(name);
    out.append("\nSection: ");
    out.append(source.section.as_str());
    out.append("\nPriority: optional\nMaintainer: ");
    out.append(maintainer);
    out.append("\nBuild-Depends: debhelper (>= 9)");
    if needs_dh_systemd {
        out.append(",\n               debhelper (>= 12.1.1)");
    }
    append_each_prefixed(&mut out, ",\n               ", &source.build_depends);
    out.append("\n");
    proof {
        assert(out@ =~= control_text(name@, source@, maintainer@, needs_dh_systemd));
    }
    out
}

/// The dependency stanza owed for one source: its stamp target mapped to
/// every consulted specification file, space-joined, ending with a blank
/// line.
pub open spec fn dep_stanza_text(
    dest: Seq<char>,
    name: Seq<char>,
    deps: Seq<Seq<char>>,
) -> Seq<char> {
    dest + "/debcrafter-"@ + name + ".stamp:"@ + concat_texts(prefixed_texts(deps, " "@)) + "\n\n"@
}

/// Synthesizes the Make-compatible dependency stanza mapping the per-source
/// stamp target to the consulted specification files, in consultation
/// order.
pub fn render_dep_stanza(dest: &str, name: &str, deps: &Vec<String>) -> (r: String)
    ensures
        r@ == dep_stanza_text(dest@, name@, deps.deep_view()),
{
    let mut out = String::new();
    out.append(dest);
    out.append("/debcrafter-");
    out.append(name);
    out.append(".stamp:");
    append_each_prefixed(&mut out, " ", deps);
    out.append("\n\n");
    proof {
        assert(out@ =~= dep_stanza_text(dest@, name@, deps.deep_view()));
    }
    out
}


/// For two collected service rules where the first refuses manual start
/// only and the second refuses manual stop only, the script holds, in
/// collection order, one unit-install directive with `--no-start` alone
/// for the first and one with the two coupled stop-on-upgrade
/// suppressions alone for the second; neither line carries the other's
/// suppressions.
pub proof fn lemma_service_suppressions(s: SourceV, r1: ServiceRuleV, r2: ServiceRuleV)
    requires
        r1.refuse_manual_start,
        !r1.refuse_manual_stop,
        !r2.refuse_manual_start,
        r2.refuse_manual_stop,
    ensures
        service_line(r1) == "\tdh_installsystemd --name="@ + r1.unit_name + " --no-start"@
            + "\n"@,
        service_line(r2) == "\tdh_installsystemd --name="@ + r2.unit_name
            + " --no-stop-on-upgrade --no-restart-after-upgrade"@ + "\n"@,
        rules_text(s, seq![r1, r2]) == "#!/usr/bin/make -f\n\n%:\n"@ + dh_line(s) + (
        "\noverride_dh_installsystemd:\n"@ + (service_line(r1) + service_line(r2)))
            + configure_block(s) + dwz_block(s) + strip_block(s),
{
    assert(service_line(r1) =~= "\tdh_installsystemd --name="@ + r1.unit_name + " --no-start"@
        + "\n"@);
    assert(service_line(r2) =~= "\tdh_installsystemd --name="@ + r2.unit_name
        + " --no-stop-on-upgrade --no-restart-after-upgrade"@ + "\n"@);
    let rules = seq![r1, r2];
    let sl = service_lines(rules);
    assert(sl.len() == 2);
    assert(sl[0] == service_line(r1));
    assert(sl.drop_first() =~= seq![service_line(r2)]);
    assert(sl.drop_first()[0] == service_line(r2));
    assert(sl.drop_first().drop_first() =~= Seq::<Seq<char>>::empty());
    assert(concat_texts(sl.drop_first().drop_first()) == Seq::<char>::empty());
    assert(concat_texts(sl.drop_first()) =~= service_line(r2));
    assert(concat_texts(sl) =~= service_line(r1) + service_line(r2));
    assert(systemd_block(rules) =~= "\noverride_dh_installsystemd:\n"@ + (service_line(r1)
        + service_line(r2)));
    assert(rules_text(s, rules) =~= "#!/usr/bin/make -f\n\n%:\n"@ + dh_line(s) + (
    "\noverride_dh_installsystemd:\n"@ + (service_line(r1) + service_line(r2)))
        + configure_block(s) + dwz_block(s) + strip_block(s));
}

/// A source with a non-empty configure-parameter list yields exactly one
/// configure override block, holding every parameter verbatim in declared
/// order after the literal separator; an empty list yields no such block.
pub proof fn lemma_configure_override(s: SourceV, rules: Seq<ServiceRuleV>)
    ensures
        s.autoconf_params.len() == 0 ==> rules_text(s, rules) == "#!/usr/bin/make -f\n\n%:\n"@
            + dh_line(s) + systemd_block(rules) + dwz_block(s) + strip_block(s),
        s.autoconf_params.len() > 0 ==> rules_text(s, rules) == "#!/usr/bin/make -f\n\n%:\n"@
            + dh_line(s) + systemd_block(rules) + ("\noverride_dh_auto_configure:\n\tdh_auto_configure --"@
            + concat_texts(prefixed_texts(s.autoconf_params, " "@)) + "\n"@) + dwz_block(s)
            + strip_block(s),
{
    if s.autoconf_params.len() == 0 {
        assert(rules_text(s, rules) =~= "#!/usr/bin/make -f\n\n%:\n"@ + dh_line(s)
            + systemd_block(rules) + dwz_block(s) + strip_block(s));
    } else {
        assert(rules_text(s, rules) =~= "#!/usr/bin/make -f\n\n%:\n"@ + dh_line(s)
            + systemd_block(rules) + ("\noverride_dh_auto_configure:\n\tdh_auto_configure --"@
            + concat_texts(prefixed_texts(s.autoconf_params, " "@)) + "\n"@) + dwz_block(s)
            + strip_block(s));
    }
}

} // verus!
