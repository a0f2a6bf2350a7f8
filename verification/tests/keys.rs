use spsl::module::ModuleKey;

#[test]
fn key_to_path_replaces_dots_and_appends_extension() {
    let key = ModuleKey::new("foo.bar.zoo");
    assert_eq!(key.key_to_path(), "foo/bar/zoo.spsl");
    assert_eq!(key.as_str(), "foo.bar.zoo");
}

#[test]
fn key_without_dots_keeps_its_text() {
    let key = ModuleKey::new("zoo");
    assert_eq!(key.key_to_path(), "zoo.spsl");
}
