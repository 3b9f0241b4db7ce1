use idioms::description::{describe, terminate_in};
use idioms::taxonomy::ErrorTaxonomy;

fn text_of(bytes: &[u8]) -> String {
    let (last, text) = bytes.split_last().unwrap();
    assert_eq!(*last, 0);
    String::from_utf8(text.to_vec()).unwrap()
}

#[test]
fn status_codes_are_the_published_ones() {
    assert_eq!(ErrorTaxonomy::ReadOnlyViolation.status_code(), 1);
    assert_eq!(
        ErrorTaxonomy::IOFailure(String::from("disk full")).status_code(),
        2
    );
    assert_eq!(
        ErrorTaxonomy::CorruptionDetected(String::from("bad page")).status_code(),
        3
    );
}

#[test]
fn status_code_is_stable_and_ignores_the_payload() {
    let error = ErrorTaxonomy::IOFailure(String::from("disk full"));
    assert_eq!(error.status_code(), error.status_code());
    assert_eq!(
        error.status_code(),
        ErrorTaxonomy::IOFailure(String::new()).status_code()
    );
    assert_eq!(
        ErrorTaxonomy::CorruptionDetected(String::from("a")).status_code(),
        ErrorTaxonomy::CorruptionDetected(String::from("b")).status_code()
    );
}

#[test]
fn read_only_violation_is_described_exactly() {
    let text = "cannot write to read-only database";
    let buffer = describe(&ErrorTaxonomy::ReadOnlyViolation).unwrap();
    assert_eq!(buffer.len(), text.len() + 1);
    assert_eq!(buffer.as_bytes().len(), text.len() + 1);
    assert_eq!(buffer.as_bytes()[text.len()], 0);
    assert_eq!(&buffer.as_bytes()[..text.len()], text.as_bytes());
    assert_eq!(buffer.into_bytes(), b"cannot write to read-only database\0");
}

#[test]
fn io_failure_description_carries_the_message() {
    let message = "No such file or directory (os error 2)";
    let buffer = describe(&ErrorTaxonomy::IOFailure(String::from(message))).unwrap();
    let text = text_of(buffer.as_bytes());
    assert!(text.contains(message));
    assert_eq!(text, "I/O Error: No such file or directory (os error 2)");
}

#[test]
fn corruption_description_carries_the_diagnostic() {
    let diagnostic = "checksum mismatch in page 7";
    let buffer = describe(&ErrorTaxonomy::CorruptionDetected(String::from(diagnostic))).unwrap();
    let text = text_of(buffer.as_bytes());
    assert!(text.contains(diagnostic));
    assert_eq!(
        text,
        "File corrupted, run repair: checksum mismatch in page 7"
    );
}

#[test]
fn render_gives_the_native_text() {
    assert_eq!(
        ErrorTaxonomy::ReadOnlyViolation.render(),
        "cannot write to read-only database"
    );
    assert_eq!(
        ErrorTaxonomy::IOFailure(String::from("x")).render(),
        "I/O Error: x"
    );
    assert_eq!(
        ErrorTaxonomy::CorruptionDetected(String::new()).render(),
        "File corrupted, run repair: "
    );
}

#[test]
fn description_of_non_ascii_payload_is_utf8() {
    let diagnostic = "Seite 7 beschädigt: ✗";
    let buffer = describe(&ErrorTaxonomy::CorruptionDetected(String::from(diagnostic))).unwrap();
    let expected = format!("File corrupted, run repair: {}", diagnostic);
    assert_eq!(buffer.len(), expected.len() + 1);
    assert_eq!(text_of(buffer.as_bytes()), expected);
}

#[test]
fn empty_payload_leaves_the_headline() {
    let buffer = describe(&ErrorTaxonomy::IOFailure(String::new())).unwrap();
    assert_eq!(buffer.into_bytes(), b"I/O Error: \0");
}

#[test]
fn describing_leaves_the_error_usable() {
    let error = ErrorTaxonomy::IOFailure(String::from("again"));
    let first = describe(&error).unwrap().into_bytes();
    let second = describe(&error).unwrap().into_bytes();
    assert_eq!(first, second);
    assert_eq!(error.status_code(), 2);
}

#[test]
fn no_storage_means_no_buffer() {
    assert!(terminate_in("anything", None).is_none());
}

#[test]
fn storage_is_overwritten_not_appended_to() {
    let buffer = terminate_in("new", Some(vec![1, 2, 3, 4, 5])).unwrap();
    assert_eq!(buffer.into_bytes(), b"new\0");
}

#[test]
fn empty_text_is_just_the_terminator() {
    let buffer = terminate_in("", Some(Vec::new())).unwrap();
    assert_eq!(buffer.len(), 1);
    assert_eq!(buffer.as_bytes(), &[0u8]);
}

#[test]
fn error_converts_into_its_status_code() {
    assert_eq!(i32::from(ErrorTaxonomy::ReadOnlyViolation), 1);
    assert_eq!(i32::from(ErrorTaxonomy::IOFailure(String::from("e"))), 2);
    let code: i32 = ErrorTaxonomy::CorruptionDetected(String::from("e")).into();
    assert_eq!(code, 3);
}

#[test]
fn payload_with_terminator_is_rendered_as_it_is() {
    let buffer = describe(&ErrorTaxonomy::IOFailure(String::from("a\0b"))).unwrap();
    assert_eq!(buffer.into_bytes(), b"I/O Error: a\0b\0");
}
