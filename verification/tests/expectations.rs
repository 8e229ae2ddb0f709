use expects::{ArtifactStore, Datum, Expect, ExpectError, MemStore};

fn sample() -> Datum {
    Datum::Record(vec![
        ("string".to_owned(), Datum::Text("Hello, world!".to_owned())),
        ("integer".to_owned(), Datum::Int(1)),
        ("bool".to_owned(), Datum::Bool(true)),
        ("enum".to_owned(), Datum::Text("B".to_owned())),
        (
            "vec".to_owned(),
            Datum::List(vec![Datum::Int(11), Datum::Int(2), Datum::Int(3)]),
        ),
    ])
}

fn sample_invalid() -> Datum {
    match sample() {
        Datum::Record(mut fields) => {
            fields[0].1 = Datum::Text("INVALID".to_owned());
            Datum::Record(fields)
        }
        _ => unreachable!(),
    }
}

fn expect_with_store(test_name: &str) -> (Expect, MemStore) {
    let expect = Expect::new(test_name, "src/expect.rs", 1);
    let mut store = MemStore::new();
    store
        .create_dir_all(&expect.get_module_dir())
        .expect("Should be able to create the expect directory");
    (expect, store)
}

#[test]
fn expect_string() -> Result<(), ExpectError> {
    // Arrange
    let valid = "Hello, world!";
    let invalid = "Oh, no!";
    let (expect, mut store) = expect_with_store("expect::tests::string");
    // Act
    // Assert
    assert!(expect.string(&mut store, valid, "txt")?, "Valid");
    assert!(!expect.string(&mut store, invalid, "txt")?, "Invalid");
    Ok(())
}

#[test]
fn expect_value() -> Result<(), ExpectError> {
    // Arrange
    let valid = sample();
    let invalid = sample_invalid();
    let (expect, mut store) = expect_with_store("expect::tests::value");
    // Act
    // Assert
    assert!(expect.value(&mut store, &valid)?, "Valid");
    assert!(!expect.value(&mut store, &invalid)?, "Invalid");
    Ok(())
}

#[test]
fn expect_values() -> Result<(), ExpectError> {
    // Arrange
    let valid = sample();
    let invalid = sample_invalid();
    let (expect, mut store) = expect_with_store("expect::tests::values");
    // Act
    // Assert
    assert!(
        expect.values(&mut store, &vec![valid.duplicate(), valid.duplicate()])?,
        "Valid"
    );
    assert!(
        !expect.values(&mut store, &[valid.duplicate()])?,
        "Missing on actual"
    );
    assert!(
        !expect.values(
            &mut store,
            &vec![valid.duplicate(), valid.duplicate(), valid.duplicate()]
        )?,
        "Missing on expected"
    );
    assert!(
        !expect.values(&mut store, &vec![valid.duplicate(), invalid.duplicate()])?,
        "Invalid"
    );
    Ok(())
}

#[test]
fn bootstrap_writes_expected() -> Result<(), ExpectError> {
    // The very first run records the actual artifact as the baseline and
    // passes; the baseline then holds exactly the bytes that were written.
    let (expect, mut store) = expect_with_store("expect::tests::bootstrap");
    let actual = "{\"n\":1}";
    let passed = expect.string(&mut store, actual, "json")?;
    assert!(passed);
    let expected_path = expect.get_expected_path("json");
    let recorded = store
        .read_file(&expected_path)
        .expect("The baseline should exist after the first run");
    assert_eq!(recorded, actual);
    // A second run with the same actual value still passes.
    assert!(expect.string(&mut store, actual, "json")?);
    Ok(())
}

#[test]
fn bootstrap_value_round_trips() -> Result<(), ExpectError> {
    let (expect, mut store) = expect_with_store("expect::tests::bootstrap_value");
    let valid = sample();
    assert!(expect.value(&mut store, &valid)?, "First run");
    assert!(expect.value(&mut store, &valid)?, "Second run");
    Ok(())
}

#[test]
fn missing_expect_dir_is_an_error() {
    let expect = Expect::new("expect::tests::missing_dir", "src/expect.rs", 1);
    let mut store = MemStore::new();
    let result = expect.string(&mut store, "anything", "txt");
    assert!(matches!(result, Err(ExpectError::ExpectDirNotFound(_))));
}

#[test]
fn missing_actual_fails_bootstrap() {
    // Reading the baseline before any actual artifact was written cannot
    // bootstrap: the copy source is missing.
    let (expect, mut store) = expect_with_store("expect::tests::no_actual");
    let result = expect.read_expected_text(&mut store, "txt");
    assert!(matches!(result, Err(ExpectError::CopyActual(_, _, _))));
}

#[test]
fn undecodable_expected_is_an_error() {
    let (expect, mut store) = expect_with_store("expect::tests::undecodable");
    let expected_path = expect.get_expected_path("json");
    store
        .write_file(&expected_path, "this is not a structured value")
        .expect("Should be able to seed the baseline");
    let result = expect.value(&mut store, &sample());
    assert!(matches!(result, Err(ExpectError::DeserializeExpected(_))));
}

#[test]
fn error_messages_name_the_failure() {
    let e = ExpectError::ExpectDirNotFound("src/.expect".to_owned());
    assert_eq!(
        e.message(),
        "Failed to run test. Expect directory not found:\nsrc/.expect".to_owned()
    );
    let e = ExpectError::WriteActual("disk full".to_owned());
    assert_eq!(
        e.message(),
        "Failed to run test. Could not write actual results file.\ndisk full".to_owned()
    );
    let e = ExpectError::CopyActual("gone".to_owned(), "a.txt".to_owned(), "b.txt".to_owned());
    assert_eq!(
        e.message(),
        "Failed to run test. Could not copy actual results file.\nFrom: a.txt\nTo: b.txt\ngone"
            .to_owned()
    );
}

struct FailingStore {
    fail_create: bool,
    fail_write: bool,
}

impl ArtifactStore for FailingStore {
    fn dir_exists(&self, path: &str) -> bool {
        // The module directory exists; the per-test directory does not.
        !path.contains(".expect/")
    }

    fn file_exists(&self, _path: &str) -> bool {
        false
    }

    fn create_dir_all(&mut self, _path: &str) -> Result<(), String> {
        if self.fail_create {
            Err("permission denied".to_owned())
        } else {
            Ok(())
        }
    }

    fn write_file(&mut self, _path: &str, _content: &str) -> Result<(), String> {
        if self.fail_write {
            Err("disk full".to_owned())
        } else {
            Ok(())
        }
    }

    fn copy_file(&mut self, _from: &str, _to: &str) -> Result<(), String> {
        Ok(())
    }

    fn read_file(&self, _path: &str) -> Result<String, String> {
        Err("unreadable".to_owned())
    }
}

#[test]
fn failing_directory_creation_is_an_error() {
    let expect = Expect::new("expect::tests::fail_create", "src/expect.rs", 1);
    let mut store = FailingStore { fail_create: true, fail_write: false };
    let result = expect.string(&mut store, "anything", "txt");
    assert!(matches!(result, Err(ExpectError::CreateSubDir(_, _))));
}

#[test]
fn failing_write_is_an_error() {
    let expect = Expect::new("expect::tests::fail_write", "src/expect.rs", 1);
    let mut store = FailingStore { fail_create: false, fail_write: true };
    let result = expect.string(&mut store, "anything", "txt");
    assert!(matches!(result, Err(ExpectError::WriteActual(_))));
}

#[test]
fn unreadable_expected_is_an_error() {
    let expect = Expect::new("expect::tests::fail_read", "src/expect.rs", 1);
    let mut store = FailingStore { fail_create: false, fail_write: false };
    let result = expect.string(&mut store, "anything", "txt");
    assert!(matches!(result, Err(ExpectError::ReadExpected(_, _))));
}
