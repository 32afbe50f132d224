use debcrafter::package::{PackageInstance, PackageSpec};
use debcrafter::validate::find_text;

fn instance(name: &str, summary: Option<&str>) -> PackageInstance {
    PackageInstance {
        name: String::from(name),
        variant: None,
        summary: summary.map(String::from),
        depends: Vec::new(),
        spec: PackageSpec::Base,
    }
}

#[test]
fn find_text_first_occurrence() {
    assert_eq!(find_text("summary = \"x\"", "summary"), Some(0));
    assert_eq!(find_text("name\nsummary", "summary"), Some(5));
    assert_eq!(find_text("abcabc", "bc"), Some(1));
    assert_eq!(find_text("abc", "d"), None);
    assert_eq!(find_text("ab", "abc"), None);
    assert_eq!(find_text("anything", ""), Some(0));
}

#[test]
fn valid_instance_passes() {
    let inst = instance("good-name.2+x", Some("present"));
    assert!(inst.validate("/f.sps", "summary = \"present\"").is_none());
}

#[test]
fn empty_summary_is_missing_and_located() {
    let inst = instance("good", Some(""));
    let diag = inst
        .validate("/f.sps", "x\nsummary = \"\"\n")
        .expect("empty summary is invalid");
    assert_eq!(diag.field, "summary");
    assert_eq!(diag.file, "/f.sps");
    assert_eq!(diag.location, Some(2));
}

#[test]
fn empty_name_is_malformed() {
    let inst = instance("", Some("present"));
    let diag = inst.validate("/f.sps", "").expect("empty name is invalid");
    assert_eq!(diag.field, "name");
    assert!(diag.location.is_none());
}

#[test]
fn uppercase_name_is_malformed() {
    let inst = instance("Upper", Some("present"));
    let diag = inst.validate("/f.sps", "name = \"Upper\"").expect("invalid");
    assert_eq!(diag.field, "name");
    assert_eq!(diag.location, Some(0));
}
