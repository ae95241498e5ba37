use schoology_export::error::{ExportError, Field};
use schoology_export::feed::{
    after_messages_page, next_link, page_items, process_message, process_update, run_feed,
};
use schoology_export::json::Json;
use schoology_export::tree::{FsOp, Store};
use schoology_export::users::UserSet;

fn obj(fields: Vec<(&str, Json)>) -> Json {
    Json::Obj(fields.into_iter().map(|(k, v)| (k.to_string(), v)).collect())
}

fn store(entries: Vec<(&str, Json)>) -> Store {
    Store {
        entries: entries
            .into_iter()
            .map(|(u, n)| (u.to_string(), n))
            .collect(),
    }
}

fn feed_page(key: &str, ids: Vec<i64>, next: Option<&str>) -> Json {
    let items: Vec<Json> = ids
        .into_iter()
        .map(|id| obj(vec![("id", Json::Int(id))]))
        .collect();
    let mut fields = vec![(key, Json::Arr(items))];
    let links;
    if let Some(n) = next {
        links = obj(vec![("next", Json::Str(n.to_string()))]);
        fields.push(("links", links));
    }
    obj(fields)
}

#[test]
fn walk_stops_at_first_page_without_next() {
    // pages 0 and 1 carry a next link, page 2 does not: exactly three
    // fetches, items from all pages in order
    let st = store(vec![
        ("https://f/u0", feed_page("update", vec![1, 2], Some("https://f/u1"))),
        ("https://f/u1", feed_page("update", vec![], Some("https://f/u2"))),
        ("https://f/u2", feed_page("update", vec![3], None)),
        ("https://f/u3", feed_page("update", vec![99], None)),
    ]);
    let pages = run_feed(st, "https://f/u0".to_string(), "update").unwrap();
    assert_eq!(pages.len(), 3);
    let mut ids: Vec<i64> = Vec::new();
    for page in &pages {
        for entry in page_items(page, "update").unwrap() {
            ids.push(entry.get_int("id").unwrap());
        }
    }
    assert_eq!(ids, vec![1, 2, 3]);
    assert!(next_link(&pages[0]).is_some());
    assert!(next_link(&pages[2]).is_none());
}

#[test]
fn walk_follows_the_cursor_exactly() {
    let st = store(vec![
        ("https://f/u1", feed_page("message", vec![5], None)),
        ("https://f/u0", feed_page("message", vec![4], Some("https://f/u1"))),
    ]);
    let pages = run_feed(st, "https://f/u0".to_string(), "message").unwrap();
    assert_eq!(pages.len(), 2);
    assert_eq!(
        page_items(&pages[0], "message").unwrap()[0].get_int("id"),
        Some(4)
    );
    assert_eq!(
        page_items(&pages[1], "message").unwrap()[0].get_int("id"),
        Some(5)
    );
}

#[test]
fn walk_fails_on_missing_page_or_collection() {
    let st = store(vec![]);
    let err = run_feed(st, "https://f/u0".to_string(), "update").unwrap_err();
    assert!(matches!(err, ExportError::NotFound(u) if u == "https://f/u0"));

    let st = store(vec![("https://f/u0", obj(vec![]))]);
    let err = run_feed(st, "https://f/u0".to_string(), "update").unwrap_err();
    assert!(matches!(err, ExportError::MissingField(Field::FeedItems)));
}

#[test]
fn inbox_feed_hands_over_to_sent_feed_once() {
    let with_next = feed_page("message", vec![], Some("https://f/m1"));
    let (url, done) = after_messages_page(&with_next, false);
    assert_eq!(url.unwrap(), "https://f/m1");
    assert!(!done);

    let last = feed_page("message", vec![], None);
    let (url, done) = after_messages_page(&last, false);
    assert_eq!(
        url.unwrap(),
        "https://api.schoology.com/v1/messages/sent?extended&options&start=0&limit=50&created_offset=0&with_attachments=TRUE&richtext=1"
    );
    assert!(done);

    let (url, done) = after_messages_page(&last, true);
    assert!(url.is_none());
    assert!(done);
}

fn update_entry(id: i64, uid: i64, comment_uids: Vec<i64>, files: Vec<(&str, &str)>) -> Json {
    let comments: Vec<Json> = comment_uids
        .into_iter()
        .map(|u| obj(vec![("uid", Json::Int(u))]))
        .collect();
    let list: Vec<Json> = files
        .into_iter()
        .map(|(name, url)| {
            obj(vec![
                ("download_path", Json::Str(url.to_string())),
                ("filename", Json::Str(name.to_string())),
            ])
        })
        .collect();
    obj(vec![
        ("id", Json::Int(id)),
        ("uid", Json::Int(uid)),
        ("comments", Json::Arr(comments)),
        (
            "attachments",
            obj(vec![("files", obj(vec![("file", Json::Arr(list))]))]),
        ),
    ])
}

#[test]
fn update_claims_author_and_commenters_once() {
    let dir: Vec<String> = vec!["updates".to_string()];
    let mut users = UserSet::new();
    let first = update_entry(10, 7, vec![8, 7], vec![("pic/1.png", "https://dl/u1")]);
    let plan = process_update(&first, &mut users, &dir).unwrap();
    assert_eq!(plan.to_export, vec![7, 8]);
    assert_eq!(plan.ops.len(), 1);
    match &plan.ops[0] {
        FsOp::Download { path, url } => {
            assert_eq!(path.clone(), vec!["updates".to_string(), "update_10_pic_1.png".to_string()]);
            assert_eq!(url, "https://dl/u1");
        },
        _ => unreachable!(),
    }
    let second = update_entry(11, 7, vec![9], vec![]);
    let plan = process_update(&second, &mut users, &dir).unwrap();
    assert_eq!(plan.to_export, vec![9]);
    assert!(plan.ops.is_empty());
}

#[test]
fn update_errors_name_their_field() {
    let dir: Vec<String> = vec!["updates".to_string()];
    let mut users = UserSet::new();

    let no_id = obj(vec![("uid", Json::Int(7))]);
    let err = process_update(&no_id, &mut users, &dir).unwrap_err();
    assert!(matches!(err, ExportError::MissingField(Field::FeedEntryId)));

    let no_uid = obj(vec![("id", Json::Int(1))]);
    let err = process_update(&no_uid, &mut users, &dir).unwrap_err();
    assert!(matches!(err, ExportError::MissingField(Field::UpdateUid)));

    let no_comments = obj(vec![("id", Json::Int(1)), ("uid", Json::Int(7))]);
    let err = process_update(&no_comments, &mut users, &dir).unwrap_err();
    assert!(matches!(err, ExportError::MissingField(Field::UpdateComments)));

    let bad_comment = obj(vec![
        ("id", Json::Int(1)),
        ("uid", Json::Int(7)),
        ("comments", Json::Arr(vec![obj(vec![])])),
    ]);
    let err = process_update(&bad_comment, &mut users, &dir).unwrap_err();
    assert!(matches!(err, ExportError::MissingField(Field::CommentUid)));
}

#[test]
fn message_plan_names_detail_and_author() {
    let dir: Vec<String> = vec!["messages".to_string()];
    let mut users = UserSet::new();
    let message = obj(vec![
        ("id", Json::Int(5)),
        ("links", obj(vec![("self", Json::Str("https://m/5".to_string()))])),
        ("author_id", Json::Int(7)),
        (
            "attachments",
            obj(vec![(
                "files",
                obj(vec![(
                    "file",
                    Json::Arr(vec![obj(vec![
                        ("download_path", Json::Str("https://dl/m5".to_string())),
                        ("filename", Json::Str("a/b.pdf".to_string())),
                    ])]),
                )]),
            )]),
        ),
    ]);
    let plan = process_message(&message, &mut users, &dir).unwrap();
    assert_eq!(plan.detail_url, "https://m/5");
    assert_eq!(
        plan.detail_path,
        vec!["messages".to_string(), "message_5.json".to_string()]
    );
    assert_eq!(plan.export_author, Some(7));
    assert_eq!(plan.ops.len(), 1);
    match &plan.ops[0] {
        FsOp::Download { path, .. } => {
            assert_eq!(
                path.clone(),
                vec!["messages".to_string(), "message_5_a_b.pdf".to_string()]
            );
        },
        _ => unreachable!(),
    }
    // the author is claimed: a second message of the same author exports
    // nobody, and one without an author is fine
    let again = obj(vec![
        ("id", Json::Int(6)),
        ("links", obj(vec![("self", Json::Str("https://m/6".to_string()))])),
        ("author_id", Json::Int(7)),
    ]);
    let plan = process_message(&again, &mut users, &dir).unwrap();
    assert_eq!(plan.export_author, None);
    let anon = obj(vec![
        ("id", Json::Int(8)),
        ("links", obj(vec![("self", Json::Str("https://m/8".to_string()))])),
    ]);
    let plan = process_message(&anon, &mut users, &dir).unwrap();
    assert_eq!(plan.export_author, None);

    let no_link = obj(vec![("id", Json::Int(9))]);
    let err = process_message(&no_link, &mut users, &dir).unwrap_err();
    assert!(matches!(err, ExportError::MissingField(Field::MessageUrl)));
}
