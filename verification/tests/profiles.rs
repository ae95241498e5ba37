use schoology_export::error::{ExportError, Field};
use schoology_export::json::Json;
use schoology_export::profile::{school_export_ops, user_export_ops};
use schoology_export::token::{parse_token_response, TokenInfo};
use schoology_export::tree::FsOp;

fn obj(fields: Vec<(&str, Json)>) -> Json {
    Json::Obj(fields.into_iter().map(|(k, v)| (k.to_string(), v)).collect())
}

fn op_path(op: &FsOp) -> Vec<String> {
    match op {
        FsOp::CreateDir { path } => path.clone(),
        FsOp::WriteRecord { path, .. } => path.clone(),
        FsOp::WriteHtml { path, .. } => path.clone(),
        FsOp::Download { path, .. } => path.clone(),
    }
}

#[test]
fn user_export_writes_profile_and_picture() {
    let users_dir: Vec<String> = vec!["users".to_string()];
    let profile = obj(vec![
        ("name_display", Json::Str("A".to_string())),
        ("picture_url", Json::Str("https://pic/7".to_string())),
    ]);
    let ops = user_export_ops(&users_dir, 7, profile).unwrap();
    assert_eq!(ops.len(), 3);
    assert!(matches!(&ops[0], FsOp::CreateDir { .. }));
    assert_eq!(op_path(&ops[0]), vec!["users".to_string(), "7".to_string()]);
    assert!(matches!(&ops[1], FsOp::WriteRecord { .. }));
    assert_eq!(
        op_path(&ops[1]),
        vec!["users".to_string(), "7".to_string(), "user_info.json".to_string()]
    );
    match &ops[2] {
        FsOp::Download { path, url } => {
            assert_eq!(
                path.clone(),
                vec!["users".to_string(), "7".to_string(), "user_image.png".to_string()]
            );
            assert_eq!(url, "https://pic/7");
        },
        _ => unreachable!(),
    }

    let bare = obj(vec![]);
    let err = user_export_ops(&users_dir, 7, bare).unwrap_err();
    assert!(matches!(err, ExportError::MissingField(Field::PictureUrl)));
}

#[test]
fn school_export_writes_info_and_picture() {
    let dir: Vec<String> = vec!["school".to_string()];
    let info = obj(vec![("picture_url", Json::Str("https://pic/s".to_string()))]);
    let ops = school_export_ops(&dir, info).unwrap();
    assert_eq!(ops.len(), 2);
    assert_eq!(
        op_path(&ops[0]),
        vec!["school".to_string(), "info.json".to_string()]
    );
    assert_eq!(
        op_path(&ops[1]),
        vec!["school".to_string(), "picture.png".to_string()]
    );

    let err = school_export_ops(&dir, obj(vec![])).unwrap_err();
    assert!(matches!(err, ExportError::MissingField(Field::PictureUrl)));
}

#[test]
fn authorization_header_is_rendered_exactly() {
    let t = TokenInfo::new(
        "ck".to_string(),
        "cs".to_string(),
        "ut".to_string(),
        "us".to_string(),
    );
    assert_eq!(
        t.authorization_header("n0", 1700000000),
        "OAuth realm=\"Schoology API\",oauth_consumer_key=\"ck\",oauth_token=\"ut\",oauth_nonce=\"n0\",oauth_timestamp=\"1700000000\",oauth_signature_method=\"PLAINTEXT\",oauth_version=\"1.0\",oauth_signature=\"cs%26us\""
    );
}

#[test]
fn token_responses_yield_their_first_two_values() {
    assert_eq!(
        parse_token_response("oauth_token=abc&oauth_token_secret=xyz&extra=1"),
        (Some("abc".to_string()), Some("xyz".to_string()))
    );
    assert_eq!(
        parse_token_response("a=b=c&x"),
        (Some("b".to_string()), None)
    );
    assert_eq!(parse_token_response("noequals"), (None, None));
    assert_eq!(
        parse_token_response("a=1"),
        (Some("1".to_string()), None)
    );
    assert_eq!(
        parse_token_response("a=&b="),
        (Some(String::new()), Some(String::new()))
    );
}

#[test]
fn request_token_phase_has_no_user_credentials() {
    let t = TokenInfo::new_no_user("ck".to_string(), "cs".to_string());
    assert!(t.user_token.is_none());
    assert!(t.user_secret.is_none());
    assert_eq!(
        t.authorization_header("n1", 5),
        "OAuth realm=\"Schoology API\",oauth_consumer_key=\"ck\",oauth_token=\"\",oauth_nonce=\"n1\",oauth_timestamp=\"5\",oauth_signature_method=\"PLAINTEXT\",oauth_version=\"1.0\",oauth_signature=\"cs%26\""
    );
}
