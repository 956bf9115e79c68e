use heseya_importer::body::{file_name_of, render_number, text_parts, FormBuilder};
use heseya_importer::interfaces::{FileSource, JsonMember, JsonNumber, JsonValue};
use heseya_importer::outcome::BuildError;

fn member(key: &str, value: JsonValue) -> JsonMember {
    JsonMember { key: key.to_string(), value }
}

fn source(field: &str, url: &str) -> FileSource {
    FileSource { field: field.to_string(), url: url.to_string() }
}

#[test]
fn multipart_form_from_flat_body_and_file() {
    let body = Some(JsonValue::Object(vec![
        member("a", JsonValue::Text("x".to_string())),
        member("b", JsonValue::Number(JsonNumber::Unsigned(3))),
        member("c", JsonValue::Null),
    ]));
    let files = vec![source("img", "http://h/f.png")];
    let mut builder = FormBuilder::start(&body, &files).unwrap();
    assert_eq!(builder.next_url(), Some("http://h/f.png"));
    assert!(builder.attach(vec![1, 2, 3]));
    assert_eq!(builder.next_url(), None);
    let form = builder.finish().unwrap();

    assert_eq!(form.files.len(), 1);
    assert_eq!(form.files[0].field, "img");
    assert_eq!(form.files[0].file_name, "f.png");
    assert_eq!(form.files[0].content, vec![1, 2, 3]);

    assert_eq!(form.texts.len(), 2);
    assert_eq!(form.texts[0].name, "a");
    assert_eq!(form.texts[0].value, "x");
    assert_eq!(form.texts[1].name, "b");
    assert_eq!(form.texts[1].value, "3");
    assert!(form.texts.iter().all(|part| part.name != "c"));
}

#[test]
fn nested_object_is_refused_before_any_fetch() {
    let body = Some(JsonValue::Object(vec![
        member("a", JsonValue::Text("x".to_string())),
        member("nested", JsonValue::Object(vec![member("k", JsonValue::Bool(true))])),
    ]));
    let files = vec![source("img", "http://h/f.png")];
    match FormBuilder::start(&body, &files) {
        Err(error) => assert_eq!(error, BuildError::UnsupportedField),
        Ok(_) => panic!("a nested object has no text form"),
    }
}

#[test]
fn array_field_is_refused() {
    let body = Some(JsonValue::Object(vec![member("list", JsonValue::Array(Vec::new()))]));
    assert_eq!(text_parts(&body).unwrap_err(), BuildError::UnsupportedField);
}

#[test]
fn body_that_is_not_an_object_is_refused() {
    for body in [
        JsonValue::Null,
        JsonValue::Bool(true),
        JsonValue::Text("x".to_string()),
        JsonValue::Number(JsonNumber::Unsigned(1)),
        JsonValue::Array(vec![JsonValue::Null]),
    ] {
        assert_eq!(text_parts(&Some(body)).unwrap_err(), BuildError::UnsupportedField);
    }
}

#[test]
fn absent_body_gives_files_only() {
    let files = vec![source("doc", "https://cdn.example/a/b/report.pdf")];
    let mut builder = FormBuilder::start(&None, &files).unwrap();
    assert!(builder.attach(b"%PDF".to_vec()));
    let form = builder.finish().unwrap();
    assert_eq!(form.texts.len(), 0);
    assert_eq!(form.files.len(), 1);
    assert_eq!(form.files[0].file_name, "report.pdf");
    assert_eq!(form.files[0].field, "doc");
}

#[test]
fn missing_file_is_an_attachment_error() {
    let files = vec![source("one", "http://h/1.bin"), source("two", "http://h/2.bin")];
    let mut builder = FormBuilder::start(&None, &files).unwrap();
    assert_eq!(builder.next_url(), Some("http://h/1.bin"));
    assert!(builder.attach(vec![1]));
    assert_eq!(builder.next_url(), Some("http://h/2.bin"));
    assert_eq!(builder.finish().unwrap_err(), BuildError::AttachmentFetch);

    let builder = FormBuilder::start(&None, &files).unwrap();
    assert_eq!(builder.finish().unwrap_err(), BuildError::AttachmentFetch);
}

#[test]
fn files_come_in_source_order_then_texts_in_member_order() {
    let body = Some(JsonValue::Object(vec![
        member("z", JsonValue::Bool(false)),
        member("skip", JsonValue::Null),
        member("a", JsonValue::Bool(true)),
        member("n", JsonValue::Number(JsonNumber::Signed(-12))),
        member("d", JsonValue::Number(JsonNumber::Decimal("19.99".to_string()))),
        member("empty", JsonValue::Text(String::new())),
    ]));
    let files = vec![source("second", "http://h/b/2.png"), source("first", "http://h/a/1.png")];
    let mut builder = FormBuilder::start(&body, &files).unwrap();
    assert!(builder.attach(vec![2]));
    assert!(builder.attach(vec![1]));
    assert!(!builder.attach(vec![9]));
    let form = builder.finish().unwrap();

    let files: Vec<(&str, &str, &[u8])> = form
        .files
        .iter()
        .map(|part| (part.field.as_str(), part.file_name.as_str(), part.content.as_slice()))
        .collect();
    assert_eq!(
        files,
        vec![("second", "2.png", &[2u8][..]), ("first", "1.png", &[1u8][..])]
    );
    let texts: Vec<(&str, &str)> =
        form.texts.iter().map(|part| (part.name.as_str(), part.value.as_str())).collect();
    assert_eq!(
        texts,
        vec![("z", "false"), ("a", "true"), ("n", "-12"), ("d", "19.99"), ("empty", "")]
    );
}

#[test]
fn no_files_and_no_members_give_an_empty_form() {
    let files: Vec<FileSource> = Vec::new();
    let body = Some(JsonValue::Object(Vec::new()));
    let builder = FormBuilder::start(&body, &files).unwrap();
    assert_eq!(builder.next_url(), None);
    let form = builder.finish().unwrap();
    assert!(form.files.is_empty());
    assert!(form.texts.is_empty());
}

#[test]
fn file_name_is_the_last_path_segment() {
    assert_eq!(file_name_of("http://h/f.png"), "f.png");
    assert_eq!(file_name_of("https://cdn.example/a/b/c.tar.gz"), "c.tar.gz");
    assert_eq!(file_name_of("plain"), "plain");
    assert_eq!(file_name_of("http://h/dir/"), "");
    assert_eq!(file_name_of(""), "");
    assert_eq!(file_name_of("/"), "");
    assert_eq!(file_name_of("http://h/a%20b.png?x=1"), "a%20b.png?x=1");
    assert_eq!(file_name_of("http://h/zdjęcie.png"), "zdjęcie.png");
}

#[test]
fn numbers_are_written_in_decimal() {
    assert_eq!(render_number(&JsonNumber::Unsigned(0)), "0");
    assert_eq!(render_number(&JsonNumber::Unsigned(3)), "3");
    assert_eq!(render_number(&JsonNumber::Unsigned(10)), "10");
    assert_eq!(render_number(&JsonNumber::Unsigned(1905)), "1905");
    assert_eq!(render_number(&JsonNumber::Unsigned(u64::MAX)), "18446744073709551615");
    assert_eq!(render_number(&JsonNumber::Signed(0)), "0");
    assert_eq!(render_number(&JsonNumber::Signed(42)), "42");
    assert_eq!(render_number(&JsonNumber::Signed(-1)), "-1");
    assert_eq!(render_number(&JsonNumber::Signed(-120)), "-120");
    assert_eq!(render_number(&JsonNumber::Signed(i64::MIN)), "-9223372036854775808");
    assert_eq!(render_number(&JsonNumber::Signed(i64::MAX)), "9223372036854775807");
    assert_eq!(render_number(&JsonNumber::Decimal("1.5e10".to_string())), "1.5e10");
}
