use expects::{compare_sequences, Datum, Diff, SeqMismatch};

fn sample() -> Datum {
    Datum::Record(vec![
        ("string".to_owned(), Datum::Text("Hello, world!".to_owned())),
        ("integer".to_owned(), Datum::Int(1)),
        ("bool".to_owned(), Datum::Bool(true)),
        ("enum".to_owned(), Datum::Text("B".to_owned())),
        (
            "vec".to_owned(),
            Datum::List(vec![Datum::Int(11), Datum::Int(2), Datum::Int(3)]),
        ),
        (
            "map".to_owned(),
            Datum::Record(vec![
                ("1".to_owned(), Datum::Int(1)),
                ("2".to_owned(), Datum::Int(3)),
            ]),
        ),
    ])
}

fn sample_invalid() -> Datum {
    let sample = sample();
    match sample {
        Datum::Record(mut fields) => {
            fields[0].1 = Datum::Text("INVALID".to_owned());
            Datum::Record(fields)
        }
        _ => unreachable!(),
    }
}

#[test]
fn diff_string() {
    // Arrange
    let valid = "Hello, world!";
    let invalid = "Oh, no!";
    // Act
    // Assert
    assert!(Diff::string(valid, valid), "Valid");
    assert!(!Diff::string(invalid, valid), "Invalid");
}

#[test]
fn diff_value() {
    // Arrange
    let valid = sample();
    let invalid = sample_invalid();
    // Act
    // Assert
    assert!(Diff::value(&valid, &valid), "Valid");
    assert!(!Diff::value(&invalid, &valid), "Invalid");
}

#[test]
fn diff_values() {
    // Arrange
    let valid = sample();
    let invalid = sample_invalid();
    // Act
    // Assert
    assert!(
        Diff::values(
            &vec![valid.duplicate(), valid.duplicate()],
            &vec![valid.duplicate(), valid.duplicate()]
        ),
        "Valid"
    );
    assert!(
        !Diff::values(
            &[valid.duplicate()],
            &vec![valid.duplicate(), valid.duplicate()]
        ),
        "Missing on actual"
    );
    assert!(
        !Diff::values(
            &vec![valid.duplicate(), valid.duplicate()],
            &[valid.duplicate()]
        ),
        "Missing on expected"
    );
    assert!(
        !Diff::values(
            &vec![valid.duplicate(), invalid.duplicate()],
            &vec![valid.duplicate(), valid.duplicate()]
        ),
        "Invalid"
    );
}

#[test]
fn report_missing_on_actual() {
    let v = sample();
    let report = compare_sequences(&[v.duplicate()], &[v.duplicate(), v.duplicate()]);
    assert_eq!(report, vec![(1, SeqMismatch::MissingOnActual)]);
}

#[test]
fn report_missing_on_expected() {
    let v = sample();
    let report = compare_sequences(
        &[v.duplicate(), v.duplicate(), v.duplicate()],
        &[v.duplicate()],
    );
    assert_eq!(
        report,
        vec![
            (1, SeqMismatch::MissingOnExpected),
            (2, SeqMismatch::MissingOnExpected)
        ]
    );
}

#[test]
fn report_unequal_index_only() {
    let v = sample();
    let w = sample_invalid();
    let report = compare_sequences(&[v.duplicate(), w.duplicate()], &[v.duplicate(), v.duplicate()]);
    assert_eq!(report, vec![(1, SeqMismatch::Unequal)]);
}

#[test]
fn report_empty_for_equal() {
    let v = sample();
    let report = compare_sequences(&[v.duplicate(), v.duplicate()], &[v.duplicate(), v.duplicate()]);
    assert!(report.is_empty());
}

#[test]
fn deep_eq_and_duplicate() {
    let v = sample();
    let copy = v.duplicate();
    assert!(v.deep_eq(&copy));
    assert_eq!(v, copy);
    assert!(!v.deep_eq(&sample_invalid()));
    assert!(!Datum::Null.deep_eq(&Datum::Bool(false)));
    assert!(Datum::Int(7).deep_eq(&Datum::Int(7)));
}
