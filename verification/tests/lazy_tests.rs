use debcrafter::lazyfile::{create_lazy_builder, LazyCreateBuilder};

#[test]
fn fresh_handle_creates_no_file() {
    let builder = LazyCreateBuilder::new(String::from("/out/file"), false);
    assert!(!builder.is_created());
    let (path, append, content) = builder.into_parts();
    assert_eq!(path, "/out/file");
    assert!(!append);
    assert!(content.is_none());
}

#[test]
fn written_handle_creates_a_file_with_the_writes_in_order() {
    let mut builder = LazyCreateBuilder::new(String::from("/out/file"), true);
    builder.write("first");
    assert!(builder.is_created());
    builder.write(" second");
    let (path, append, content) = builder.into_parts();
    assert_eq!(path, "/out/file");
    assert!(append);
    assert_eq!(content, Some(String::from("first second")));
}

#[test]
fn empty_write_still_creates() {
    let mut builder = LazyCreateBuilder::new(String::from("/out/file"), false);
    builder.write("");
    assert!(builder.is_created());
    let (_, _, content) = builder.into_parts();
    assert_eq!(content, Some(String::new()));
}

#[test]
fn builder_path_joins_name_and_extension() {
    let builder = create_lazy_builder("/dest/debian", "mypkg", "install", false);
    let (path, _, content) = builder.into_parts();
    assert_eq!(path, "/dest/debian/mypkg.install");
    assert!(content.is_none());
}

#[test]
fn builder_path_with_empty_extension() {
    let builder = create_lazy_builder("/dest/debian", "control", "", true);
    let (path, append, _) = builder.into_parts();
    assert_eq!(path, "/dest/debian/control");
    assert!(append);
}

#[test]
fn builder_path_with_service_extension() {
    let builder = create_lazy_builder("/dest/debian", "mypkg", "myunit.service", false);
    let (path, _, _) = builder.into_parts();
    assert_eq!(path, "/dest/debian/mypkg.myunit.service");
}
