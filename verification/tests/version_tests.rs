use debcrafter::version::{get_upstream_version, trim_newline};

#[test]
fn upstream_version_strips_revision() {
    assert_eq!(get_upstream_version("1.2.3-4"), "1.2.3");
}

#[test]
fn upstream_version_without_hyphen_unchanged() {
    assert_eq!(get_upstream_version("1.2.3"), "1.2.3");
}

#[test]
fn upstream_version_strips_after_last_hyphen_only() {
    assert_eq!(get_upstream_version("1.2-rc1-3"), "1.2-rc1");
}

#[test]
fn upstream_version_empty() {
    assert_eq!(get_upstream_version(""), "");
}

#[test]
fn trim_newline_drops_one_trailing_newline() {
    assert_eq!(trim_newline("1.0-1\n"), "1.0-1");
    assert_eq!(trim_newline("1.0-1"), "1.0-1");
    assert_eq!(trim_newline(""), "");
}
