use expects::Expect;

fn paths_expect(test_name: &str) -> Expect {
    Expect::new(test_name, "src/fs/paths.rs", 1)
}

#[test]
fn get_expect_dir() {
    // Arrange
    let expect = paths_expect("paths::tests::get_expect_dir");
    // Act
    let path = expect.get_module_dir();
    // Assert
    assert_eq!(path, "src/fs/.expect".to_owned());
}

#[test]
fn get_results_dir_for_test() {
    // Arrange
    let expect = paths_expect("paths::tests::get_results_dir_for_test");
    // Act
    let path = expect.get_test_dir();
    // Assert
    assert_eq!(path, "src/fs/.expect/paths".to_owned());
}

#[test]
fn get_actual_path() {
    // Arrange
    let expect = paths_expect("paths::tests::get_actual_path");
    // Act
    let path = expect.get_actual_path("json");
    // Assert
    assert_eq!(
        path,
        "src/fs/.expect/paths/get_actual_path.actual.json".to_owned()
    );
}

#[test]
fn get_expected_path() {
    // Arrange
    let expect = paths_expect("paths::tests::get_expected_path");
    // Act
    let path = expect.get_expected_path("json");
    // Assert
    assert_eq!(
        path,
        "src/fs/.expect/paths/get_expected_path.expect.json".to_owned()
    );
}

#[test]
fn path_determinism() {
    let first = Expect::new("mymod::tests::foo", "src/x.rs", 10);
    let second = Expect::new("mymod::tests::foo", "src/x.rs", 99);
    assert_eq!(first.get_actual_path("txt"), second.get_actual_path("txt"));
    assert_eq!(
        first.get_expected_path("txt"),
        second.get_expected_path("txt")
    );
    assert_eq!(first.get_actual_path("txt"), "src/.expect/x/foo.actual.txt");
    assert_eq!(
        first.get_expected_path("txt"),
        "src/.expect/x/foo.expect.txt"
    );
}

#[test]
fn path_without_parent_directory() {
    let expect = Expect::new("alone", "standalone.rs", 3);
    assert_eq!(expect.get_module_dir(), ".expect".to_owned());
    assert_eq!(expect.get_test_dir(), ".expect/standalone".to_owned());
}
