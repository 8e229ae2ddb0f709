use expects::TestContext;

#[test]
fn new() {
    // Arrange
    let line = 42;
    // Act
    let context = TestContext::new("context::tests::new", "src/context.rs", line);
    // Assert
    println!("{context:?}");
    assert_eq!(
        context.module,
        vec!["context".to_owned(), "tests".to_owned()],
        "Module path"
    );
    assert_eq!(context.name, "new".to_owned(), "Test name");
    assert_eq!(context.file, "src/context.rs".to_owned(), "File path");
    assert_eq!(context.line, line, "Line number");
}

#[test]
fn identity_derivation() {
    let context = TestContext::new("mymod::tests::foo", "src/x.rs", 10);
    assert_eq!(context.module, vec!["mymod".to_owned(), "tests".to_owned()]);
    assert_eq!(context.name, "foo".to_owned());
    assert_eq!(context.file, "src/x.rs".to_owned());
    assert_eq!(context.line, 10);
}

#[test]
fn identity_single_segment() {
    let context = TestContext::new("solo", "tests/solo.rs", 1);
    assert!(context.module.is_empty());
    assert_eq!(context.name, "solo".to_owned());
}
