use schoology_export::error::{ExportError, Field};
use schoology_export::json::Json;
use schoology_export::tree::{run_export, FsOp, Store};

fn obj(fields: Vec<(&str, Json)>) -> Json {
    Json::Obj(fields.into_iter().map(|(k, v)| (k.to_string(), v)).collect())
}

fn item(ty: &str, title: &str, location: &str) -> Json {
    obj(vec![
        ("type", Json::Str(ty.to_string())),
        ("title", Json::Str(title.to_string())),
        ("location", Json::Str(location.to_string())),
    ])
}

fn with_attachments(mut fields: Vec<(&str, Json)>, files: Vec<(&str, &str)>) -> Json {
    let list: Vec<Json> = files
        .into_iter()
        .map(|(name, url)| {
            obj(vec![
                ("download_path", Json::Str(url.to_string())),
                ("filename", Json::Str(name.to_string())),
            ])
        })
        .collect();
    fields.push((
        "attachments",
        obj(vec![("files", obj(vec![("file", Json::Arr(list))]))]),
    ));
    obj(fields)
}

fn store(entries: Vec<(&str, Json)>) -> Store {
    Store {
        entries: entries
            .into_iter()
            .map(|(u, n)| (u.to_string(), n))
            .collect(),
    }
}

fn path(segs: &[&str]) -> Vec<String> {
    segs.iter().map(|s| s.to_string()).collect()
}

fn op_path(op: &FsOp) -> Vec<String> {
    match op {
        FsOp::CreateDir { path } => path.clone(),
        FsOp::WriteRecord { path, .. } => path.clone(),
        FsOp::WriteHtml { path, .. } => path.clone(),
        FsOp::Download { path, .. } => path.clone(),
    }
}

fn deep_store() -> Store {
    let rev5 = with_attachments(
        vec![("revision_id", Json::Int(5))],
        vec![("draft/essay.txt", "https://dl/3")],
    );
    let rev9 = obj(vec![("revision_id", Json::Int(9))]);
    store(vec![
        (
            "https://s/f1",
            obj(vec![("folder-item", Json::Arr(vec![item("folder", "Sub", "https://s/f2")]))]),
        ),
        (
            "https://s/f2",
            obj(vec![(
                "folder-item",
                Json::Arr(vec![item("page", "Deep Page", "https://s/p2")]),
            )]),
        ),
        (
            "https://s/p2?with_attachments=TRUE&richtext=1",
            with_attachments(
                vec![("body", Json::Str("<p>deep</p>".to_string()))],
                vec![("a/b.pdf", "https://dl/1")],
            ),
        ),
        (
            "https://s/p1?with_attachments=TRUE&richtext=1",
            obj(vec![("body", Json::Str("<p>intro</p>".to_string()))]),
        ),
        (
            "https://s/d1?with_attachments=TRUE&richtext=1",
            with_attachments(vec![("kind", Json::Str("doc".to_string()))], vec![(
                "notes.pdf",
                "https://dl/2",
            )]),
        ),
        (
            "https://s/a/assignments/77?with_attachments=TRUE&richtext=1",
            obj(vec![("due", Json::Int(123))]),
        ),
        (
            "https://s/a/submissions/77?with_attachments=TRUE&all_revisions=TRUE",
            obj(vec![("revision", Json::Arr(vec![rev5, rev9]))]),
        ),
        (
            "https://s/a/grades?assignment_id=77",
            obj(vec![("grade", Json::Int(95))]),
        ),
    ])
}

fn deep_root() -> Json {
    obj(vec![(
        "folder-item",
        Json::Arr(vec![
            item("folder", "Unit/One", "https://s/f1"),
            item("page", "Intro", "https://s/p1"),
            item("document", "Syllabus", "https://s/d1"),
            item("assignment", "HW/1", "https://s/a/assignments/77"),
        ]),
    )])
}

#[test]
fn depth_three_tree_shape() {
    let ops = run_export(deep_store(), path(&["files"]), deep_root()).unwrap();
    let expected: Vec<(&str, Vec<String>)> = vec![
        ("dir", path(&["files"])),
        ("dir", path(&["files", "Unit_One"])),
        ("dir", path(&["files", "Unit_One", "Sub"])),
        ("dir", path(&["files", "Unit_One", "Sub", "Deep Page"])),
        ("html", path(&["files", "Unit_One", "Sub", "Deep Page", "page.html"])),
        ("download", path(&["files", "Unit_One", "Sub", "Deep Page", "attachment_a_b.pdf"])),
        ("dir", path(&["files", "Intro"])),
        ("html", path(&["files", "Intro", "page.html"])),
        ("dir", path(&["files", "Syllabus"])),
        ("record", path(&["files", "Syllabus", "info.json"])),
        ("download", path(&["files", "Syllabus", "attachment_notes.pdf"])),
        ("dir", path(&["files", "HW_1"])),
        ("record", path(&["files", "HW_1", "info.json"])),
        ("dir", path(&["files", "HW_1", "revision_5"])),
        ("record", path(&["files", "HW_1", "revision_5", "info.json"])),
        ("download", path(&["files", "HW_1", "revision_5", "draft_essay.txt"])),
        ("dir", path(&["files", "HW_1", "revision_9"])),
        ("record", path(&["files", "HW_1", "revision_9", "info.json"])),
        ("record", path(&["files", "HW_1", "grade.json"])),
    ];
    assert_eq!(ops.len(), expected.len());
    for (op, (kind, p)) in ops.iter().zip(expected.iter()) {
        let actual_kind = match op {
            FsOp::CreateDir { .. } => "dir",
            FsOp::WriteRecord { .. } => "record",
            FsOp::WriteHtml { .. } => "html",
            FsOp::Download { .. } => "download",
        };
        assert_eq!(actual_kind, *kind);
        assert_eq!(&op_path(op), p);
    }
    // assignment completeness: both revisions, exactly one grade write
    let grade_writes = ops
        .iter()
        .filter(|op| op_path(op).last().map(|s| s.as_str()) == Some("grade.json"))
        .count();
    assert_eq!(grade_writes, 1);
    // the page body and the attachment sources survive
    let body = ops.iter().find_map(|op| match op {
        FsOp::WriteHtml { body, .. } => Some(body.clone()),
        _ => None,
    });
    assert_eq!(body.unwrap(), "<p>deep</p>");
    let urls: Vec<String> = ops
        .iter()
        .filter_map(|op| match op {
            FsOp::Download { url, .. } => Some(url.clone()),
            _ => None,
        })
        .collect();
    assert_eq!(urls, vec!["https://dl/1", "https://dl/2", "https://dl/3"]);
}

#[test]
fn unknown_type_aborts_whole_traversal() {
    // the sibling after the quiz is absent from the store: had the walk
    // reached it, the failure would be a missing record, not the protocol
    // violation
    let st = store(vec![(
        "https://s/p1?with_attachments=TRUE&richtext=1",
        obj(vec![("body", Json::Str("x".to_string()))]),
    )]);
    let root = obj(vec![(
        "folder-item",
        Json::Arr(vec![
            item("page", "First", "https://s/p1"),
            item("quiz", "Pop Quiz", "https://s/q1"),
            item("page", "After", "https://s/p9"),
        ]),
    )]);
    let err = run_export(st, path(&["files"]), root).unwrap_err();
    assert!(err.is_unknown_item_type());
    match err {
        ExportError::UnknownItemType(t) => assert_eq!(t, "quiz"),
        _ => unreachable!(),
    }
}

#[test]
fn empty_folder_is_a_leaf() {
    let ops = run_export(store(vec![]), path(&["files"]), obj(vec![])).unwrap();
    assert_eq!(ops.len(), 1);
    assert_eq!(op_path(&ops[0]), path(&["files"]));
}

#[test]
fn missing_record_fails_the_walk() {
    let root = obj(vec![(
        "folder-item",
        Json::Arr(vec![item("folder", "Ghost", "https://s/none")]),
    )]);
    let err = run_export(store(vec![]), path(&["files"]), root).unwrap_err();
    match err {
        ExportError::NotFound(url) => assert_eq!(url, "https://s/none"),
        _ => unreachable!(),
    }
}

#[test]
fn item_errors_name_their_field() {
    let root = obj(vec![(
        "folder-item",
        Json::Arr(vec![obj(vec![("type", Json::Str("page".to_string()))])]),
    )]);
    let err = run_export(store(vec![]), path(&["files"]), root).unwrap_err();
    assert!(matches!(err, ExportError::MissingField(Field::ItemTitle)));

    let root = obj(vec![(
        "folder-item",
        Json::Arr(vec![obj(vec![("title", Json::Str("T".to_string()))])]),
    )]);
    let err = run_export(store(vec![]), path(&["files"]), root).unwrap_err();
    assert!(matches!(err, ExportError::MissingField(Field::ItemLocation)));

    let root = obj(vec![(
        "folder-item",
        Json::Arr(vec![obj(vec![
            ("title", Json::Str("T".to_string())),
            ("location", Json::Str("https://s/x".to_string())),
        ])]),
    )]);
    let err = run_export(store(vec![]), path(&["files"]), root).unwrap_err();
    assert!(matches!(err, ExportError::MissingField(Field::ItemType)));
}

#[test]
fn page_without_body_fails() {
    let st = store(vec![(
        "https://s/p1?with_attachments=TRUE&richtext=1",
        obj(vec![]),
    )]);
    let root = obj(vec![(
        "folder-item",
        Json::Arr(vec![item("page", "P", "https://s/p1")]),
    )]);
    let err = run_export(st, path(&["files"]), root).unwrap_err();
    assert!(matches!(err, ExportError::MissingField(Field::PageBody)));
}

#[test]
fn submissions_need_their_revision_array() {
    let st = store(vec![
        (
            "https://s/a/assignments/7?with_attachments=TRUE&richtext=1",
            obj(vec![]),
        ),
        (
            "https://s/a/submissions/7?with_attachments=TRUE&all_revisions=TRUE",
            obj(vec![]),
        ),
    ]);
    let root = obj(vec![(
        "folder-item",
        Json::Arr(vec![item("assignment", "A", "https://s/a/assignments/7")]),
    )]);
    let err = run_export(st, path(&["files"]), root).unwrap_err();
    assert!(matches!(err, ExportError::MissingField(Field::Revisions)));
}

#[test]
fn attachment_entries_need_name_and_source() {
    let bad = obj(vec![
        ("body", Json::Str("x".to_string())),
        (
            "attachments",
            obj(vec![(
                "files",
                obj(vec![(
                    "file",
                    Json::Arr(vec![obj(vec![(
                        "download_path",
                        Json::Str("https://dl/9".to_string()),
                    )])]),
                )]),
            )]),
        ),
    ]);
    let st = store(vec![("https://s/p1?with_attachments=TRUE&richtext=1", bad)]);
    let root = obj(vec![(
        "folder-item",
        Json::Arr(vec![item("page", "P", "https://s/p1")]),
    )]);
    let err = run_export(st, path(&["files"]), root).unwrap_err();
    assert!(matches!(err, ExportError::MissingField(Field::AttachmentFilename)));
}
