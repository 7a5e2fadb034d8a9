use file_attach::input_file::{FileUpload, InputFile};
use file_attach::names::{attach_token_string, decimal_string, indexed_name_string};
use file_attach::serialize::{
    file_upload_json, input_file_json, read_file_field, FileFieldError, FileFieldValue,
};

#[test]
fn memory_input_file_serializes_as_null() {
    let payload = InputFile::memory("demo.bin", vec![0, 1, 2, 3]);
    let json = format!("{{\"file\":{}}}", input_file_json(&payload));
    assert_eq!(json, "{\"file\":null}");
}

#[test]
fn pending_upload_serializes_as_null() {
    let upload = FileUpload::from(InputFile::memory("secret.bin", vec![9u8, 9, 9]));
    let json = file_upload_json(&upload);
    assert_eq!(json, "null");
    assert!(!json.contains("secret"));
}

#[test]
fn path_upload_serializes_as_null_too() {
    let upload = FileUpload::from(InputFile::from_path("a/b/c.bin"));
    assert_eq!(file_upload_json(&upload), "null");
}

#[test]
fn reference_serializes_as_json_string() {
    let upload = FileUpload::String(String::from("attach://video"));
    assert_eq!(file_upload_json(&upload), "\"attach://video\"");
}

#[test]
fn reference_serialization_escapes_like_the_wire_format() {
    let upload = FileUpload::String(String::from("a\"b\\c\nd\u{1}e"));
    assert_eq!(file_upload_json(&upload), "\"a\\\"b\\\\c\\nd\\u0001e\"");
}

#[test]
fn reading_a_string_names_a_path() {
    let read = read_file_field(&FileFieldValue::Text(String::from("photos/cat.jpg")));
    assert_eq!(read, Ok(InputFile::from_path("photos/cat.jpg")));
}

#[test]
fn reading_a_record_takes_the_last_path_entry() {
    let entries = vec![
        (String::from("file_name"), String::from("ignored.bin")),
        (String::from("path"), String::from("first")),
        (String::from("data"), String::from("ignored")),
        (String::from("path"), String::from("second")),
        (String::from("extra"), String::from("ignored")),
    ];
    let read = read_file_field(&FileFieldValue::Record(entries));
    assert_eq!(read, Ok(InputFile::from_path("second")));
}

#[test]
fn reading_a_record_without_path_fails() {
    let entries = vec![
        (String::from("file_name"), String::from("x.bin")),
        (String::from("data"), String::from("abc")),
    ];
    let read = read_file_field(&FileFieldValue::Record(entries));
    assert_eq!(read, Err(FileFieldError::MissingPath));
}

#[test]
fn reading_an_absent_value_fails() {
    let read = read_file_field(&FileFieldValue::Absent);
    assert_eq!(read, Err(FileFieldError::InvalidType));
}

#[test]
fn string_path_round_trip() {
    let constructed = InputFile::from_path("some/dir/file.bin");
    let read = read_file_field(&FileFieldValue::Text(String::from("some/dir/file.bin")))
        .expect("a string must name a path");
    assert_eq!(constructed, read);
}

#[test]
fn decimal_strings_are_exact() {
    assert_eq!(decimal_string(0), "0");
    assert_eq!(decimal_string(7), "7");
    assert_eq!(decimal_string(10), "10");
    assert_eq!(decimal_string(90210), "90210");
    assert_eq!(decimal_string(18446744073709551615), "18446744073709551615");
}

#[test]
fn names_are_built_exactly() {
    assert_eq!(indexed_name_string(0), "file0");
    assert_eq!(indexed_name_string(12), "file12");
    assert_eq!(attach_token_string("file12"), "attach://file12");
    assert_eq!(attach_token_string("video"), "attach://video");
}

#[test]
fn equality_is_structural() {
    assert_eq!(
        InputFile::memory("a.bin", vec![1u8, 2]),
        InputFile::memory("a.bin", vec![1u8, 2])
    );
    assert_ne!(
        InputFile::memory("a.bin", vec![1u8, 2]),
        InputFile::memory("a.bin", vec![1u8, 3])
    );
    assert_ne!(
        InputFile::memory("a.bin", vec![1u8, 2]),
        InputFile::from_path("a.bin")
    );
    assert_eq!(
        FileUpload::String(String::from("x")),
        FileUpload::String(String::from("x"))
    );
    assert_ne!(
        FileUpload::String(String::from("x")),
        FileUpload::from(InputFile::from_path("x"))
    );
}

#[test]
fn clones_are_equal() {
    let file = InputFile::memory("a.bin", vec![1u8, 2, 3]);
    assert_eq!(file.clone(), file);
    let upload = FileUpload::from(file);
    assert_eq!(upload.clone(), upload);
}

#[test]
fn empty_reference_serializes_as_empty_json_string() {
    let upload = FileUpload::String(String::new());
    assert_eq!(file_upload_json(&upload), "\"\"");
}

#[test]
fn empty_string_still_names_a_path() {
    let read = read_file_field(&FileFieldValue::Text(String::new()));
    assert_eq!(read, Ok(InputFile::from_path("")));
}
