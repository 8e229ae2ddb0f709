use expects::{
    ArtifactStore, Datum, Expect, ExpectError, DefaultSerializer, MemStore, Serializer,
    SerializerExtensions,
};

fn sample() -> Datum {
    Datum::Record(vec![
        ("string".to_owned(), Datum::Text("Hello, world!".to_owned())),
        ("integer".to_owned(), Datum::Int(1)),
        ("bool".to_owned(), Datum::Bool(true)),
    ])
}

fn io_expect(test_name: &str, file: &str) -> (Expect, MemStore) {
    let expect = Expect::new(test_name, file, 1);
    let mut store = MemStore::new();
    store
        .create_dir_all(&expect.get_module_dir())
        .expect("Should be able to create the expect directory");
    (expect, store)
}

#[test]
fn read_expected_text() -> Result<(), ExpectError> {
    // Arrange
    let (expect, mut store) = io_expect("read::tests::read_expected_text", "src/fs/read.rs");
    let expected = "Hello, world!";
    store
        .write_file(&expect.get_expected_path("txt"), expected)
        .expect("Should be able to seed the baseline");
    // Act
    let result = expect.read_expected_text(&mut store, "txt")?;
    // Assert
    assert_eq!(result, expected);
    Ok(())
}

#[test]
fn read_expected_serialized() -> Result<(), ExpectError> {
    // Arrange
    let (expect, mut store) = io_expect("read::tests::read_expected_serialized", "src/fs/read.rs");
    let expected = sample();
    let serializer = DefaultSerializer::get();
    let extension = serializer.get_extension();
    store
        .write_file(
            &expect.get_expected_path(&extension),
            &serializer.serialize(&expected),
        )
        .expect("Should be able to seed the baseline");
    // Act
    let result: Datum = expect.read_expected_serialized(&mut store)?;
    // Assert
    assert_eq!(result, expected);
    Ok(())
}

#[test]
fn write_actual_text() -> Result<(), ExpectError> {
    // Arrange
    let (expect, mut store) = io_expect("write::tests::write_actual_text", "src/fs/write.rs");
    let actual = "Hello, world!";
    let path = expect.get_actual_path("txt");
    // Act
    expect.write_actual_text(&mut store, actual, "txt")?;
    // Assert
    let result = store.read_file(&path).expect("Should be able to read file");
    assert_eq!(result, actual);
    Ok(())
}

#[test]
fn write_actual_serialized() -> Result<(), ExpectError> {
    // Arrange
    let (expect, mut store) = io_expect("write::tests::write_actual_serialized", "src/fs/write.rs");
    let actual = sample();
    let extension = DefaultSerializer::get().get_extension();
    let path = expect.get_actual_path(&extension);
    // Act
    expect.write_actual_serialized(&mut store, &actual)?;
    // Assert
    let result = store.read_file(&path).expect("Should be able to read file");
    assert!(!result.is_empty());
    Ok(())
}

#[test]
fn verify_dirs_creates_the_test_directory() -> Result<(), ExpectError> {
    let (expect, mut store) = io_expect("paths::tests::verify", "src/fs/paths.rs");
    assert!(!store.dir_exists(&expect.get_test_dir()));
    expect.verify_dirs(&mut store)?;
    assert!(store.dir_exists(&expect.get_test_dir()));
    Ok(())
}
