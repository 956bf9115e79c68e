use heseya_importer::interfaces::{
    has_distinct_fields, ApiTokens, FileSource, JsonMember, JsonNumber, JsonValue, LoginDto,
    Request, RequestMethod, Response,
};
use heseya_importer::outcome::{status_is_client_error, status_is_server_error, status_is_success};
use heseya_importer::transport::{full_url, login_request, prepare, refresh_request, PayloadKind};

#[test]
fn method_names_are_read_in_any_casing() {
    assert_eq!(RequestMethod::parse("GET"), Some(RequestMethod::Get));
    assert_eq!(RequestMethod::parse("get"), Some(RequestMethod::Get));
    assert_eq!(RequestMethod::parse("Get"), Some(RequestMethod::Get));
    assert_eq!(RequestMethod::parse("gEt"), Some(RequestMethod::Get));
    assert_eq!(RequestMethod::parse("POST"), Some(RequestMethod::Post));
    assert_eq!(RequestMethod::parse("post"), Some(RequestMethod::Post));
    assert_eq!(RequestMethod::parse("Put"), Some(RequestMethod::Put));
    assert_eq!(RequestMethod::parse("PATCH"), Some(RequestMethod::Patch));
    assert_eq!(RequestMethod::parse("patch"), Some(RequestMethod::Patch));
    assert_eq!(RequestMethod::parse("DELETE"), Some(RequestMethod::Delete));
    assert_eq!(RequestMethod::parse("Delete"), Some(RequestMethod::Delete));
}

#[test]
fn other_texts_name_no_method() {
    for text in ["", "GE", "GETS", " GET", "HEAD", "OPTIONS", "p0st", "DELETE ", "pątch"] {
        assert_eq!(RequestMethod::parse(text), None);
    }
}

#[test]
fn method_tokens_are_upper_case() {
    assert_eq!(RequestMethod::Get.as_str(), "GET");
    assert_eq!(RequestMethod::Post.as_str(), "POST");
    assert_eq!(RequestMethod::Put.as_str(), "PUT");
    assert_eq!(RequestMethod::Patch.as_str(), "PATCH");
    assert_eq!(RequestMethod::Delete.as_str(), "DELETE");
    for method in [
        RequestMethod::Get,
        RequestMethod::Post,
        RequestMethod::Put,
        RequestMethod::Patch,
        RequestMethod::Delete,
    ] {
        assert_eq!(RequestMethod::parse(method.as_str()), Some(method));
    }
}

#[test]
fn status_classes() {
    assert!(status_is_success(200));
    assert!(status_is_success(299));
    assert!(!status_is_success(199));
    assert!(!status_is_success(300));
    assert!(status_is_client_error(400));
    assert!(status_is_client_error(499));
    assert!(!status_is_client_error(399));
    assert!(!status_is_client_error(500));
    assert!(status_is_server_error(500));
    assert!(status_is_server_error(599));
    assert!(!status_is_server_error(499));
    assert!(!status_is_server_error(600));
}

#[test]
fn url_is_path_behind_base() {
    assert_eq!(full_url("https://api.example", "/products"), "https://api.example/products");
    assert_eq!(full_url("", ""), "");
    assert_eq!(full_url("http://h/", "/x"), "http://h//x");
}

#[test]
fn prepared_call_carries_method_url_and_token() {
    let request = Request {
        method: RequestMethod::Patch,
        url: "/items/7".to_string(),
        body: Some(JsonValue::Object(Vec::new())),
        auth: None,
        files: None,
    };
    let call = prepare("https://api.example", &request, Some("tok"));
    assert_eq!(call.method, RequestMethod::Patch);
    assert_eq!(call.url, "https://api.example/items/7");
    assert_eq!(call.payload, PayloadKind::Json);
    assert_eq!(call.bearer.as_deref(), Some("tok"));

    let call = prepare("https://api.example", &request, None);
    assert_eq!(call.bearer, None);
}

#[test]
fn files_make_the_payload_multipart() {
    let request = Request {
        method: RequestMethod::Post,
        url: "/media".to_string(),
        body: None,
        auth: None,
        files: Some(vec![FileSource { field: "f".to_string(), url: "http://h/f".to_string() }]),
    };
    assert_eq!(prepare("b", &request, None).payload, PayloadKind::Multipart);
    let request = Request { files: Some(Vec::new()), ..request };
    assert_eq!(prepare("b", &request, None).payload, PayloadKind::Multipart);
}

fn members_of(request: &Request) -> Vec<(String, Option<String>)> {
    match &request.body {
        Some(JsonValue::Object(members)) => members
            .iter()
            .map(|m| match &m.value {
                JsonValue::Text(text) => (m.key.clone(), Some(text.clone())),
                JsonValue::Null => (m.key.clone(), None),
                other => panic!("unexpected member {other:?}"),
            })
            .collect(),
        other => panic!("unexpected body {other:?}"),
    }
}

#[test]
fn login_request_posts_the_credentials() {
    let login = LoginDto {
        email: "a@b.c".to_string(),
        password: "pw".to_string(),
        code: Some("000111".to_string()),
    };
    let request = login_request(&login);
    assert_eq!(request.method, RequestMethod::Post);
    assert_eq!(request.url, "/login");
    assert!(request.auth.is_none());
    assert!(request.files.is_none());
    assert_eq!(
        members_of(&request),
        vec![
            ("email".to_string(), Some("a@b.c".to_string())),
            ("password".to_string(), Some("pw".to_string())),
            ("code".to_string(), Some("000111".to_string())),
        ]
    );

    let login = LoginDto { email: "e".to_string(), password: "p".to_string(), code: None };
    assert_eq!(
        members_of(&login_request(&login)),
        vec![
            ("email".to_string(), Some("e".to_string())),
            ("password".to_string(), Some("p".to_string())),
            ("code".to_string(), None),
        ]
    );
}

#[test]
fn refresh_request_posts_the_refresh_token() {
    let tokens = ApiTokens {
        token: "t".to_string(),
        identity_token: "i".to_string(),
        refresh_token: "r-123".to_string(),
    };
    let request = refresh_request(&tokens);
    assert_eq!(request.method, RequestMethod::Post);
    assert_eq!(request.url, "/auth/refresh");
    assert!(request.auth.is_none());
    assert!(request.files.is_none());
    assert_eq!(
        members_of(&request),
        vec![("refresh_token".to_string(), Some("r-123".to_string()))]
    );
}

#[test]
fn clones_keep_every_field() {
    let login = LoginDto {
        email: "a@b.c".to_string(),
        password: "pw".to_string(),
        code: Some("1".to_string()),
    };
    let copy = login.clone();
    assert_eq!(copy.email, "a@b.c");
    assert_eq!(copy.password, "pw");
    assert_eq!(copy.code.as_deref(), Some("1"));
    let tokens = ApiTokens {
        token: "t".to_string(),
        identity_token: "i".to_string(),
        refresh_token: "r".to_string(),
    };
    let copy = tokens.clone();
    assert_eq!(copy.token, "t");
    assert_eq!(copy.identity_token, "i");
    assert_eq!(copy.refresh_token, "r");
    let envelope = Response { data: 7u8 };
    assert_eq!(envelope.clone().data, 7);
}

fn source(field: &str, url: &str) -> FileSource {
    FileSource { field: field.to_string(), url: url.to_string() }
}

#[test]
fn request_clone_keeps_the_whole_descriptor() {
    let request = Request {
        method: RequestMethod::Put,
        url: "/products/1".to_string(),
        body: Some(JsonValue::Object(vec![
            JsonMember { key: "name".to_string(), value: JsonValue::Text("n".to_string()) },
            JsonMember {
                key: "tags".to_string(),
                value: JsonValue::Array(vec![
                    JsonValue::Number(JsonNumber::Signed(-4)),
                    JsonValue::Bool(true),
                    JsonValue::Null,
                    JsonValue::Object(vec![JsonMember {
                        key: "deep".to_string(),
                        value: JsonValue::Number(JsonNumber::Decimal("0.5".to_string())),
                    }]),
                ]),
            },
        ])),
        auth: Some(LoginDto {
            email: "e".to_string(),
            password: "p".to_string(),
            code: None,
        }),
        files: Some(vec![source("a", "http://h/a"), source("b", "http://h/b")]),
    };
    let copy = request.clone();
    assert_eq!(format!("{copy:?}"), format!("{request:?}"));
    assert_eq!(copy.method, RequestMethod::Put);
    assert_eq!(copy.url, "/products/1");
    assert_eq!(copy.files.as_ref().map(Vec::len), Some(2));
}

#[test]
fn form_fields_must_be_distinct() {
    assert!(has_distinct_fields(&Vec::new()));
    assert!(has_distinct_fields(&vec![source("a", "u")]));
    assert!(has_distinct_fields(&vec![source("a", "u"), source("b", "u"), source("c", "u")]));
    assert!(!has_distinct_fields(&vec![source("a", "u"), source("b", "v"), source("a", "w")]));
    assert!(!has_distinct_fields(&vec![source("a", "u"), source("a", "u")]));

    let mut request = Request {
        method: RequestMethod::Post,
        url: "/m".to_string(),
        body: None,
        auth: None,
        files: None,
    };
    assert!(request.is_well_formed());
    request.files = Some(vec![source("x", "1"), source("y", "2")]);
    assert!(request.is_well_formed());
    request.files = Some(vec![source("x", "1"), source("x", "2")]);
    assert!(!request.is_well_formed());
}
