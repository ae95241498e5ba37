//! The export traversal engine: the recursive, type-dispatched walk of a
//! course's nested content tree. A folder listing names its entries with a
//! `type` discriminator, a `title` and a `location` (detail URL); the engine
//! dispatches each entry to the folder, page, document or assignment rules,
//! and an unrecognized type fails the entire traversal — silently skipping it
//! would leave the export silently incomplete.
//!
//! The walk is an explicit work list of pending tasks. Fetching is not done
//! here: a task names the URL it needs, the driver fetches the record and
//! hands it back, and the engine answers with the filesystem operations to
//! perform plus the subtasks to run next, ahead of the remaining work
//! (depth-first, left to right). [`run_export`] runs the same engine against
//! a [`Store`] of already-fetched records, which hands each record out once:
//! the traversal never revisits a URL.

use vstd::prelude::*;

use crate::error::{ErrorV, ExportError, Field};
use crate::json::{spec_get, spec_get_array, spec_get_int, spec_get_string, Json};
use crate::text::{
    concat2, i64_to_string, replace_all, sanitize, spec_dec_signed, spec_replace, spec_sanitize,
    str_eq,
};
use vstd::string::StringExecFns;

verus! {

// ---------------------------------------------------------------------------
// Filesystem operations and pending tasks
// ---------------------------------------------------------------------------
/// A destination inside the export tree, as path components from its root.
/// Every component is a sanitized name, so none holds a path separator.
pub type DirPath = Vec<String>;

/// One filesystem operation the driver must perform, in order.
#[derive(Debug)]
pub enum FsOp {
    /// Create the directory at `path`.
    CreateDir { path: DirPath },
    /// Write `record` at `path` as structured data.
    WriteRecord { path: DirPath, record: Json },
    /// Write `body` at `path` as an HTML file.
    WriteHtml { path: DirPath, body: String },
    /// Fetch the raw bytes at `url` and write them at `path`.
    Download { path: DirPath, url: String },
}

/// The mathematical value of an [`FsOp`].
pub enum OpV {
    CreateDir { path: Seq<Seq<char>> },
    WriteRecord { path: Seq<Seq<char>>, record: Json },
    WriteHtml { path: Seq<Seq<char>>, body: Seq<char> },
    Download { path: Seq<Seq<char>>, url: Seq<char> },
}

pub open spec fn path_view(p: Seq<String>) -> Seq<Seq<char>> {
    p.map_values(|s: String| s@)
}

impl View for FsOp {
    type V = OpV;

    open spec fn view(&self) -> OpV {
        match self {
            FsOp::CreateDir { path } => OpV::CreateDir { path: path_view(path@) },
            FsOp::WriteRecord { path, record } => OpV::WriteRecord {
                path: path_view(path@),
                record: *record,
            },
            FsOp::WriteHtml { path, body } => OpV::WriteHtml {
                path: path_view(path@),
                body: body@,
            },
            FsOp::Download { path, url } => OpV::Download { path: path_view(path@), url: url@ },
        }
    }
}

/// One pending unit of work of the traversal.
#[derive(Debug)]
pub enum Task {
    /// Fetch a folder listing and expand its entries.
    Folder { dest: DirPath, url: String },
    /// Fetch a page record and export its body and attachments.
    Page { dest: DirPath, url: String },
    /// Fetch a document record and export it and its attachments.
    Document { dest: DirPath, url: String },
    /// Fetch an assignment record and export it; its submissions and grade
    /// follow as subtasks.
    Assignment { dest: DirPath, url: String },
    /// Fetch the submissions of an assignment and expand their revisions.
    Submissions { dest: DirPath, url: String },
    /// Fetch the grade record of an assignment and export it.
    Grade { dest: DirPath, url: String },
    /// Export one already-fetched submission revision.
    Revision { dest: DirPath, node: Json },
    /// A failure found while expanding a listing, delivered when the walk
    /// reaches it, so that everything before it is processed first and
    /// nothing after it ever is.
    Abort { err: ExportError },
}

/// The mathematical value of a [`Task`].
pub enum TaskV {
    Folder { dest: Seq<Seq<char>>, url: Seq<char> },
    Page { dest: Seq<Seq<char>>, url: Seq<char> },
    Document { dest: Seq<Seq<char>>, url: Seq<char> },
    Assignment { dest: Seq<Seq<char>>, url: Seq<char> },
    Submissions { dest: Seq<Seq<char>>, url: Seq<char> },
    Grade { dest: Seq<Seq<char>>, url: Seq<char> },
    Revision { dest: Seq<Seq<char>>, node: Json },
    Abort { err: ErrorV },
}

impl View for Task {
    type V = TaskV;

    open spec fn view(&self) -> TaskV {
        match self {
            Task::Folder { dest, url } => TaskV::Folder {
                dest: path_view(dest@),
                url: url@,
            },
            Task::Page { dest, url } => TaskV::Page { dest: path_view(dest@), url: url@ },
            Task::Document { dest, url } => TaskV::Document {
                dest: path_view(dest@),
                url: url@,
            },
            Task::Assignment { dest, url } => TaskV::Assignment {
                dest: path_view(dest@),
                url: url@,
            },
            Task::Submissions { dest, url } => TaskV::Submissions {
                dest: path_view(dest@),
                url: url@,
            },
            Task::Grade { dest, url } => TaskV::Grade { dest: path_view(dest@), url: url@ },
            Task::Revision { dest, node } => TaskV::Revision {
                dest: path_view(dest@),
                node: *node,
            },
            Task::Abort { err } => TaskV::Abort { err: err@ },
        }
    }
}

pub open spec fn ops_view(s: Seq<FsOp>) -> Seq<OpV> {
    s.map_values(|o: FsOp| o@)
}

pub open spec fn tasks_view(s: Seq<Task>) -> Seq<TaskV> {
    s.map_values(|t: Task| t@)
}

// ---------------------------------------------------------------------------
// The traversal rules, one spec function per record kind
// ---------------------------------------------------------------------------
/// The query suffix under which pages, documents and assignments are fetched.
pub open spec fn detail_suffix() -> Seq<char> {
    "?with_attachments=TRUE&richtext=1"@
}

/// The query suffix under which an assignment's submissions are fetched.
pub open spec fn submissions_suffix() -> Seq<char> {
    "?with_attachments=TRUE&all_revisions=TRUE"@
}

/// The task one folder entry stands for, or the error that entry is: a
/// missing `title`, `location` or `type`, or a `type` outside the known set
/// (a protocol violation).
pub open spec fn spec_parse_item(item: Json, dest: Seq<Seq<char>>) -> Result<TaskV, ErrorV> {
    match spec_get_string(item, "title"@) {
        None => Err(ErrorV::MissingField(Field::ItemTitle)),
        Some(title) => match spec_get_string(item, "location"@) {
            None => Err(ErrorV::MissingField(Field::ItemLocation)),
            Some(url) => {
                let sub = dest.push(spec_sanitize(title));
                match spec_get_string(item, "type"@) {
                    None => Err(ErrorV::MissingField(Field::ItemType)),
                    Some(t) => if t == "folder"@ {
                        Ok(TaskV::Folder { dest: sub, url })
                    } else if t == "page"@ {
                        Ok(TaskV::Page { dest: sub, url })
                    } else if t == "document"@ {
                        Ok(TaskV::Document { dest: sub, url })
                    } else if t == "assignment"@ {
                        Ok(TaskV::Assignment { dest: sub, url })
                    } else {
                        Err(ErrorV::UnknownItemType(t))
                    },
                }
            },
        },
    }
}

/// The tasks of a folder listing, left to right. A bad entry becomes a
/// pending [`TaskV::Abort`] and ends the expansion: the entries before it
/// are walked first, the ones after it never.
pub open spec fn spec_items_tasks(items: Seq<Json>, dest: Seq<Seq<char>>) -> Seq<TaskV>
    decreases items.len(),
{
    if items.len() == 0 {
        Seq::empty()
    } else {
        match spec_parse_item(items[0], dest) {
            Err(e) => seq![TaskV::Abort { err: e }],
            Ok(t) => seq![t] + spec_items_tasks(items.drop_first(), dest),
        }
    }
}

/// The download operations for the attachments listed by `items`, in order:
/// each entry names a `download_path` and a `filename`, and is written under
/// `dest` as the prefixed, sanitized filename.
pub open spec fn spec_attachment_ops(
    items: Seq<Json>,
    dest: Seq<Seq<char>>,
    prefix: Seq<char>,
) -> Result<Seq<OpV>, ErrorV>
    decreases items.len(),
{
    if items.len() == 0 {
        Ok(Seq::empty())
    } else {
        match spec_get_string(items[0], "download_path"@) {
            None => Err(ErrorV::MissingField(Field::AttachmentDownloadPath)),
            Some(url) => match spec_get_string(items[0], "filename"@) {
                None => Err(ErrorV::MissingField(Field::AttachmentFilename)),
                Some(name) => match spec_attachment_ops(items.drop_first(), dest, prefix) {
                    Err(e) => Err(e),
                    Ok(rest) => Ok(
                        seq![
                            OpV::Download {
                                path: dest.push(prefix + spec_sanitize(name)),
                                url,
                            },
                        ] + rest,
                    ),
                },
            },
        }
    }
}

/// The attachment list of a record, under `attachments`, `files`, `file`;
/// its absence at any level means "no attachments" and is not an error.
pub open spec fn spec_attachment_list(node: Json) -> Option<Seq<Json>> {
    match spec_get(node, "attachments"@) {
        None => None,
        Some(a) => match spec_get(a, "files"@) {
            None => None,
            Some(f) => spec_get_array(f, "file"@),
        },
    }
}

/// The download operations for all attachments of a record.
pub open spec fn spec_node_attachments(
    node: Json,
    dest: Seq<Seq<char>>,
    prefix: Seq<char>,
) -> Result<Seq<OpV>, ErrorV> {
    match spec_attachment_list(node) {
        None => Ok(Seq::empty()),
        Some(items) => spec_attachment_ops(items, dest, prefix),
    }
}

/// Opening a folder record: create its directory, then expand its
/// `folder-item` listing; a folder without one is a leaf and is complete
/// once its directory exists.
pub open spec fn spec_open_folder(dest: Seq<Seq<char>>, node: Json) -> Result<
    (Seq<OpV>, Seq<TaskV>),
    ErrorV,
> {
    let ops = seq![OpV::CreateDir { path: dest }];
    match spec_get_array(node, "folder-item"@) {
        None => Ok((ops, Seq::empty())),
        Some(items) => Ok((ops, spec_items_tasks(items, dest))),
    }
}

/// A page: its directory, its `body` as an HTML file, then its attachments
/// under the `attachment_` prefix.
pub open spec fn spec_page_ops(dest: Seq<Seq<char>>, node: Json) -> Result<
    (Seq<OpV>, Seq<TaskV>),
    ErrorV,
> {
    match spec_get_string(node, "body"@) {
        None => Err(ErrorV::MissingField(Field::PageBody)),
        Some(body) => match spec_node_attachments(node, dest, "attachment_"@) {
            Err(e) => Err(e),
            Ok(at) => Ok(
                (
                    seq![
                        OpV::CreateDir { path: dest },
                        OpV::WriteHtml { path: dest.push("page.html"@), body },
                    ] + at,
                    Seq::empty(),
                ),
            ),
        },
    }
}

/// A document: its directory, the full record as structured data, then its
/// attachments under the `attachment_` prefix.
pub open spec fn spec_document_ops(dest: Seq<Seq<char>>, node: Json) -> Result<
    (Seq<OpV>, Seq<TaskV>),
    ErrorV,
> {
    match spec_node_attachments(node, dest, "attachment_"@) {
        Err(e) => Err(e),
        Ok(at) => Ok(
            (
                seq![
                    OpV::CreateDir { path: dest },
                    OpV::WriteRecord { path: dest.push("info.json"@), record: node },
                ] + at,
                Seq::empty(),
            ),
        ),
    }
}

/// An assignment: its directory and record, then, strictly in this order,
/// its submissions and its grade as subtasks.
pub open spec fn spec_assignment_ops(dest: Seq<Seq<char>>, url: Seq<char>, node: Json) -> Result<
    (Seq<OpV>, Seq<TaskV>),
    ErrorV,
> {
    Ok(
        (
            seq![
                OpV::CreateDir { path: dest },
                OpV::WriteRecord { path: dest.push("info.json"@), record: node },
            ],
            seq![TaskV::Submissions { dest, url }, TaskV::Grade { dest, url }],
        ),
    )
}

/// The revision tasks of a submissions record, in order; a revision without
/// a `revision_id` becomes a pending failure that ends the expansion.
pub open spec fn spec_revision_tasks(revs: Seq<Json>, dest: Seq<Seq<char>>) -> Seq<TaskV>
    decreases revs.len(),
{
    if revs.len() == 0 {
        Seq::empty()
    } else {
        match spec_get_int(revs[0], "revision_id"@) {
            None => seq![TaskV::Abort { err: ErrorV::MissingField(Field::RevisionId) }],
            Some(id) => seq![
                TaskV::Revision {
                    dest: dest.push("revision_"@ + spec_dec_signed(id as int)),
                    node: revs[0],
                },
            ] + spec_revision_tasks(revs.drop_first(), dest),
        }
    }
}

/// A submissions record: its `revision` array (which must be present) as one
/// subtask per revision.
pub open spec fn spec_submissions_ops(dest: Seq<Seq<char>>, node: Json) -> Result<
    (Seq<OpV>, Seq<TaskV>),
    ErrorV,
> {
    match spec_get_array(node, "revision"@) {
        None => Err(ErrorV::MissingField(Field::Revisions)),
        Some(revs) => Ok((Seq::empty(), spec_revision_tasks(revs, dest))),
    }
}

/// One submission revision: its directory, its record, then its attachments
/// under their raw sanitized names — each revision has its own subdirectory.
pub open spec fn spec_revision_ops(dest: Seq<Seq<char>>, node: Json) -> Result<
    (Seq<OpV>, Seq<TaskV>),
    ErrorV,
> {
    match spec_node_attachments(node, dest, Seq::empty()) {
        Err(e) => Err(e),
        Ok(at) => Ok(
            (
                seq![
                    OpV::CreateDir { path: dest },
                    OpV::WriteRecord { path: dest.push("info.json"@), record: node },
                ] + at,
                Seq::empty(),
            ),
        ),
    }
}

/// A grade record: written beside the assignment's record; its directory
/// already exists.
pub open spec fn spec_grade_ops(dest: Seq<Seq<char>>, node: Json) -> Result<
    (Seq<OpV>, Seq<TaskV>),
    ErrorV,
> {
    Ok((seq![OpV::WriteRecord { path: dest.push("grade.json"@), record: node }], Seq::empty()))
}

// ---------------------------------------------------------------------------
// The engine: which URL a task needs, and what applying it yields
// ---------------------------------------------------------------------------
/// The URL a task must have fetched before it can run, if any. A folder is
/// fetched at its `location` unmodified; pages, documents and assignments
/// under the detail suffix; submissions and grades at URLs that substring
/// replacement makes out of the assignment's `location`.
pub open spec fn spec_fetch_url(t: TaskV) -> Option<Seq<char>> {
    match t {
        TaskV::Folder { url, .. } => Some(url),
        TaskV::Page { url, .. } => Some(url + detail_suffix()),
        TaskV::Document { url, .. } => Some(url + detail_suffix()),
        TaskV::Assignment { url, .. } => Some(url + detail_suffix()),
        TaskV::Submissions { url, .. } => Some(
            spec_replace(url, "assignments"@, "submissions"@) + submissions_suffix(),
        ),
        TaskV::Grade { url, .. } => Some(
            spec_replace(url, "assignments/"@, "grades?assignment_id="@),
        ),
        TaskV::Revision { .. } => None,
        TaskV::Abort { .. } => None,
    }
}

/// What applying a task to its fetched record yields: the filesystem
/// operations to perform now, and the subtasks to walk before the remaining
/// work. `node` is ignored by the tasks that fetch nothing.
pub open spec fn spec_apply(t: TaskV, node: Json) -> Result<(Seq<OpV>, Seq<TaskV>), ErrorV> {
    match t {
        TaskV::Folder { dest, .. } => spec_open_folder(dest, node),
        TaskV::Page { dest, .. } => spec_page_ops(dest, node),
        TaskV::Document { dest, .. } => spec_document_ops(dest, node),
        TaskV::Assignment { dest, url } => spec_assignment_ops(dest, url, node),
        TaskV::Submissions { dest, .. } => spec_submissions_ops(dest, node),
        TaskV::Grade { dest, .. } => spec_grade_ops(dest, node),
        TaskV::Revision { dest, node: rev } => spec_revision_ops(dest, rev),
        TaskV::Abort { err } => Err(err),
    }
}

// ---------------------------------------------------------------------------
// A store of fetched records, and the run of the whole walk against one
// ---------------------------------------------------------------------------
/// The index of the first record stored under `url`, if any.
pub open spec fn store_find(store: Seq<(String, Json)>, url: Seq<char>) -> Option<int>
    decreases store.len(),
{
    if store.len() == 0 {
        None
    } else if store[0].0@ == url {
        Some(0)
    } else {
        match store_find(store.drop_first(), url) {
            None => None,
            Some(i) => Some(i + 1),
        }
    }
}

pub proof fn lemma_store_find_range(store: Seq<(String, Json)>, url: Seq<char>)
    ensures
        match store_find(store, url) {
            Some(i) => 0 <= i < store.len() && store[i].0@ == url,
            None => true,
        },
    decreases store.len(),
{
    if store.len() > 0 && store[0].0@ != url {
        lemma_store_find_range(store.drop_first(), url);
    }
}

/// Fetching from a store hands the first record under `url` out and removes
/// it: the walk never fetches one URL twice.
pub open spec fn spec_fetch(store: Seq<(String, Json)>, url: Seq<char>) -> Option<
    (Json, Seq<(String, Json)>),
> {
    match store_find(store, url) {
        None => None,
        Some(i) => Some((store[i].1, store.remove(i))),
    }
}

pub open spec fn prepend_run(ops: Seq<OpV>, r: Result<Seq<OpV>, ErrorV>) -> Result<
    Seq<OpV>,
    ErrorV,
> {
    match r {
        Ok(rest) => Ok(ops + rest),
        Err(e) => Err(e),
    }
}

/// The run of the engine over a work list against a store: the operations of
/// the first task, then — depth first — those of its subtasks, then the rest;
/// the first failure anywhere ends the whole run. The walk terminates because
/// every fetch consumes its store entry and the tasks that fetch nothing
/// spawn no subtasks.
pub open spec fn spec_run(store: Seq<(String, Json)>, work: Seq<TaskV>) -> Result<
    Seq<OpV>,
    ErrorV,
>
    decreases store.len(), work.len(),
    via spec_run_decreases
{
    if work.len() == 0 {
        Ok(Seq::empty())
    } else {
        let rest = work.drop_first();
        match spec_fetch_url(work[0]) {
            Some(url) => match spec_fetch(store, url) {
                None => Err(ErrorV::NotFound(url)),
                Some((node, store2)) => match spec_apply(work[0], node) {
                    Err(e) => Err(e),
                    Ok((ops, sub)) => prepend_run(ops, spec_run(store2, sub + rest)),
                },
            },
            None => match spec_apply(work[0], Json::Null) {
                Err(e) => Err(e),
                Ok((ops, sub)) => prepend_run(ops, spec_run(store, sub + rest)),
            },
        }
    }
}

#[via_fn]
proof fn spec_run_decreases(store: Seq<(String, Json)>, work: Seq<TaskV>) {
    if work.len() > 0 {
        match spec_fetch_url(work[0]) {
            Some(url) => {
                lemma_store_find_range(store, url);
            },
            None => {
                assert(match spec_apply(work[0], Json::Null) {
                    Ok((ops, sub)) => sub.len() == 0,
                    Err(_) => true,
                });
            },
        }
    }
}

/// The whole course-files export: open the already-fetched root folder, then
/// run the walk it spawns.
pub open spec fn spec_export(
    store: Seq<(String, Json)>,
    dest: Seq<Seq<char>>,
    root: Json,
) -> Result<Seq<OpV>, ErrorV> {
    match spec_open_folder(dest, root) {
        Err(e) => Err(e),
        Ok((ops, tasks)) => prepend_run(ops, spec_run(store, tasks)),
    }
}

// ---------------------------------------------------------------------------
// Fail-fast laws of the walk
// ---------------------------------------------------------------------------
/// A pending failure at the head of the work list fails the whole run, with
/// that failure: nothing behind it is fetched, expanded or written.
pub proof fn lemma_abort_stops_run(store: Seq<(String, Json)>, work: Seq<TaskV>, e: ErrorV)
    requires
        work.len() > 0,
        work[0] == (TaskV::Abort { err: e }),
    ensures
        spec_run(store, work) == Err::<Seq<OpV>, ErrorV>(e),
{
}

/// Expanding a listing stops at its first bad entry: the entries before it
/// become their tasks, the bad one its pending failure, and the entries
/// after it contribute nothing at all — left-to-right fail-fast.
pub proof fn lemma_items_stop_at_failure(
    items: Seq<Json>,
    dest: Seq<Seq<char>>,
    i: int,
    e: ErrorV,
)
    requires
        0 <= i < items.len(),
        spec_parse_item(items[i], dest) == Err::<TaskV, ErrorV>(e),
        forall|j: int| 0 <= j < i ==> spec_parse_item(#[trigger] items[j], dest) is Ok,
    ensures
        spec_items_tasks(items, dest) == spec_items_tasks(items.subrange(0, i), dest) + seq![
            TaskV::Abort { err: e },
        ],
    decreases i,
{
    if i == 0 {
        assert(spec_items_tasks(items.subrange(0, 0), dest) =~= Seq::<TaskV>::empty());
        assert(spec_items_tasks(items, dest) =~= spec_items_tasks(items.subrange(0, 0), dest)
            + seq![TaskV::Abort { err: e }]);
    } else {
        let rest = items.drop_first();
        assert(rest[i - 1] == items[i]);
        assert(forall|j: int| 0 <= j < i - 1 ==> #[trigger] rest[j] == items[j + 1]);
        lemma_items_stop_at_failure(rest, dest, i - 1, e);
        let t0 = spec_parse_item(items[0], dest)->Ok_0;
        assert(rest.subrange(0, i - 1) =~= items.subrange(0, i).drop_first());
        assert(items.subrange(0, i)[0] == items[0]);
        assert(spec_items_tasks(items.subrange(0, i), dest) == seq![t0] + spec_items_tasks(
            rest.subrange(0, i - 1),
            dest,
        ));
        assert(spec_items_tasks(items, dest) =~= spec_items_tasks(items.subrange(0, i), dest)
            + seq![TaskV::Abort { err: e }]);
    }
}

/// A task that fetches nothing spawns no subtasks: only fetched listings
/// grow the walk, which is why it terminates against any store.
pub proof fn lemma_nofetch_no_subtasks(t: TaskV, node: Json)
    requires
        spec_fetch_url(t) is None,
    ensures
        match spec_apply(t, node) {
            Ok((ops, sub)) => sub.len() == 0,
            Err(_) => true,
        },
{
}

proof fn lemma_prepend_run_empty(r: Result<Seq<OpV>, ErrorV>)
    ensures
        prepend_run(Seq::empty(), r) == r,
{
    match r {
        Ok(rest) => {
            assert(Seq::<OpV>::empty() + rest =~= rest);
        },
        Err(_) => {},
    }
}

proof fn lemma_prepend_run_assoc(a: Seq<OpV>, b: Seq<OpV>, r: Result<Seq<OpV>, ErrorV>)
    ensures
        prepend_run(a, prepend_run(b, r)) == prepend_run(a + b, r),
{
    match r {
        Ok(rest) => {
            assert(a + (b + rest) =~= (a + b) + rest);
        },
        Err(_) => {},
    }
}

// ---------------------------------------------------------------------------
// The executable engine
// ---------------------------------------------------------------------------
/// A copy of a destination path, component by component.
pub fn clone_path(p: &DirPath) -> (r: DirPath)
    ensures
        path_view(r@) == path_view(p@),
{
    let n = p.len();
    let mut out: Vec<String> = Vec::new();
    let mut i: usize = 0;
    while i < n
        invariant
            n == p@.len(),
            i <= n,
            out@.len() == i,
            forall|j: int| 0 <= j < i ==> out@[j]@ == p@[j]@,
        decreases n - i,
    {
        out.push(p[i].clone());
        i += 1;
    }
    proof {
        assert(path_view(out@) =~= path_view(p@));
    }
    out
}

/// The path one component below `p`.
pub fn path_push(p: &DirPath, seg: String) -> (r: DirPath)
    ensures
        path_view(r@) == path_view(p@).push(seg@),
{
    let mut out = clone_path(p);
    out.push(seg);
    proof {
        assert(path_view(out@) =~= path_view(p@).push(seg@));
    }
    out
}

/// Parses one folder entry into its task, by the rules of
/// [`spec_parse_item`].
pub fn parse_item(item: &Json, dest: &DirPath) -> (r: Result<Task, ExportError>)
    ensures
        match r {
            Ok(t) => spec_parse_item(*item, path_view(dest@)) == Ok::<TaskV, ErrorV>(t@),
            Err(e) => spec_parse_item(*item, path_view(dest@)) == Err::<TaskV, ErrorV>(e@),
        },
{
    let title = match item.get_string("title") {
        Some(t) => t,
        None => {
            return Err(ExportError::MissingField(Field::ItemTitle));
        },
    };
    let url = match item.get_string("location") {
        Some(u) => u,
        None => {
            return Err(ExportError::MissingField(Field::ItemLocation));
        },
    };
    let sub = path_push(dest, sanitize(title.as_str()));
    let t = match item.get_string("type") {
        Some(t) => t,
        None => {
            return Err(ExportError::MissingField(Field::ItemType));
        },
    };
    if str_eq(t.as_str(), "folder") {
        Ok(Task::Folder { dest: sub, url })
    } else if str_eq(t.as_str(), "page") {
        Ok(Task::Page { dest: sub, url })
    } else if str_eq(t.as_str(), "document") {
        Ok(Task::Document { dest: sub, url })
    } else if str_eq(t.as_str(), "assignment") {
        Ok(Task::Assignment { dest: sub, url })
    } else {
        Err(ExportError::UnknownItemType(t))
    }
}

/// The download operations for all attachments of a record, per
/// [`spec_node_attachments`].
#[verifier::loop_isolation(false)]
pub fn attachment_ops(node: &Json, dest: &DirPath, prefix: &str) -> (r: Result<
    Vec<FsOp>,
    ExportError,
>)
    ensures
        match r {
            Ok(ops) => spec_node_attachments(*node, path_view(dest@), prefix@) == Ok::<
                Seq<OpV>,
                ErrorV,
            >(ops_view(ops@)),
            Err(e) => spec_node_attachments(*node, path_view(dest@), prefix@) == Err::<
                Seq<OpV>,
                ErrorV,
            >(e@),
        },
{
    proof {
        assert(ops_view(Seq::<FsOp>::empty()) =~= Seq::<OpV>::empty());
    }
    let items = match node.get("attachments") {
        Some(a) => match a.get("files") {
            Some(f) => match f.get_array("file") {
                Some(items) => items,
                None => {
                    return Ok(Vec::new());
                },
            },
            None => {
                return Ok(Vec::new());
            },
        },
        None => {
            return Ok(Vec::new());
        },
    };
    let ghost destv = path_view(dest@);
    let n = items.len();
    let mut ops: Vec<FsOp> = Vec::new();
    let mut i: usize = 0;
    proof {
        assert(items@.skip(0) =~= items@);
        lemma_prepend_run_empty(spec_attachment_ops(items@, destv, prefix@));
    }
    while i < n
        invariant
            n == items@.len(),
            i <= n,
            spec_attachment_ops(items@, destv, prefix@) == prepend_run(
                ops_view(ops@),
                spec_attachment_ops(items@.skip(i as int), destv, prefix@),
            ),
        decreases n - i,
    {
        let ghost tail = items@.skip(i as int);
        proof {
            assert(tail[0] == items@[i as int]);
            assert(tail.drop_first() =~= items@.skip(i as int + 1));
        }
        let a = &items[i];
        let url = match a.get_string("download_path") {
            Some(u) => u,
            None => {
                return Err(ExportError::MissingField(Field::AttachmentDownloadPath));
            },
        };
        let name = match a.get_string("filename") {
            Some(f) => f,
            None => {
                return Err(ExportError::MissingField(Field::AttachmentFilename));
            },
        };
        let seg = concat2(prefix, sanitize(name.as_str()).as_str());
        let op = FsOp::Download { path: path_push(dest, seg), url };
        let ghost opv = op@;
        let ghost opsv = ops_view(ops@);
        ops.push(op);
        i += 1;
        proof {
            assert(ops_view(ops@) =~= opsv + seq![opv]);
            assert(spec_attachment_ops(tail, destv, prefix@) == prepend_run(
                seq![opv],
                spec_attachment_ops(items@.skip(i as int), destv, prefix@),
            ));
            lemma_prepend_run_assoc(
                opsv,
                seq![opv],
                spec_attachment_ops(items@.skip(i as int), destv, prefix@),
            );
        }
    }
    proof {
        assert(items@.skip(n as int) =~= Seq::<Json>::empty());
        assert(ops_view(ops@) + Seq::<OpV>::empty() =~= ops_view(ops@));
    }
    Ok(ops)
}

/// Opens a folder record, as given by [`spec_open_folder`].
#[verifier::loop_isolation(false)]
pub fn open_folder(dest: DirPath, node: Json) -> (r: Result<(Vec<FsOp>, Vec<Task>), ExportError>)
    ensures
        match r {
            Ok((ops, tasks)) => spec_open_folder(path_view(dest@), node) == Ok::<
                (Seq<OpV>, Seq<TaskV>),
                ErrorV,
            >((ops_view(ops@), tasks_view(tasks@))),
            Err(e) => spec_open_folder(path_view(dest@), node) == Err::<
                (Seq<OpV>, Seq<TaskV>),
                ErrorV,
            >(e@),
        },
{
    let ghost destv = path_view(dest@);
    let mut ops: Vec<FsOp> = Vec::new();
    ops.push(FsOp::CreateDir { path: clone_path(&dest) });
    proof {
        assert(ops_view(ops@) =~= seq![OpV::CreateDir { path: destv }]);
        assert(tasks_view(Seq::<Task>::empty()) =~= Seq::<TaskV>::empty());
    }
    let items = match node.take_array("folder-item") {
        Some(v) => v,
        None => {
            return Ok((ops, Vec::new()));
        },
    };
    let n = items.len();
    let mut tasks: Vec<Task> = Vec::new();
    let mut i: usize = 0;
    proof {
        assert(items@.skip(0) =~= items@);
        assert(tasks_view(tasks@) + spec_items_tasks(items@, destv) =~= spec_items_tasks(
            items@,
            destv,
        ));
    }
    while i < n
        invariant
            n == items@.len(),
            i <= n,
            spec_items_tasks(items@, destv) == tasks_view(tasks@) + spec_items_tasks(
                items@.skip(i as int),
                destv,
            ),
        decreases n - i,
    {
        let ghost tail = items@.skip(i as int);
        let ghost tsv = tasks_view(tasks@);
        proof {
            assert(tail[0] == items@[i as int]);
            assert(tail.drop_first() =~= items@.skip(i as int + 1));
        }
        match parse_item(&items[i], &dest) {
            Ok(t) => {
                let ghost tv = t@;
                tasks.push(t);
                i += 1;
                proof {
                    assert(tasks_view(tasks@) =~= tsv + seq![tv]);
                    assert(spec_items_tasks(tail, destv) == seq![tv] + spec_items_tasks(
                        items@.skip(i as int),
                        destv,
                    ));
                    assert(tsv + seq![tv] + spec_items_tasks(items@.skip(i as int), destv) =~= tsv
                        + (seq![tv] + spec_items_tasks(items@.skip(i as int), destv)));
                }
            },
            Err(e) => {
                let ghost ev = e@;
                tasks.push(Task::Abort { err: e });
                proof {
                    assert(spec_items_tasks(tail, destv) =~= seq![TaskV::Abort { err: ev }]);
                    assert(tasks_view(tasks@) =~= tsv + seq![TaskV::Abort { err: ev }]);
                }
                return Ok((ops, tasks));
            },
        }
    }
    proof {
        assert(items@.skip(n as int) =~= Seq::<Json>::empty());
        assert(tasks_view(tasks@) + Seq::<TaskV>::empty() =~= tasks_view(tasks@));
    }
    Ok((ops, tasks))
}

/// Exports a page record, as given by [`spec_page_ops`].
pub fn page_ops(dest: DirPath, node: Json) -> (r: Result<(Vec<FsOp>, Vec<Task>), ExportError>)
    ensures
        match r {
            Ok((ops, tasks)) => spec_page_ops(path_view(dest@), node) == Ok::<
                (Seq<OpV>, Seq<TaskV>),
                ErrorV,
            >((ops_view(ops@), tasks_view(tasks@))),
            Err(e) => spec_page_ops(path_view(dest@), node) == Err::<
                (Seq<OpV>, Seq<TaskV>),
                ErrorV,
            >(e@),
        },
{
    let body = match node.get_string("body") {
        Some(b) => b,
        None => {
            return Err(ExportError::MissingField(Field::PageBody));
        },
    };
    let mut at = match attachment_ops(&node, &dest, "attachment_") {
        Ok(v) => v,
        Err(e) => {
            return Err(e);
        },
    };
    let ghost atv = ops_view(at@);
    let ghost destv = path_view(dest@);
    let mut ops: Vec<FsOp> = Vec::new();
    ops.push(FsOp::CreateDir { path: clone_path(&dest) });
    ops.push(FsOp::WriteHtml { path: path_push(&dest, String::from_str("page.html")), body });
    let ghost headv = ops_view(ops@);
    ops.append(&mut at);
    proof {
        assert(ops_view(ops@) =~= headv + atv);
        assert(headv =~= seq![
            OpV::CreateDir { path: destv },
            OpV::WriteHtml { path: destv.push("page.html"@), body: body@ },
        ]);
        assert(tasks_view(Seq::<Task>::empty()) =~= Seq::<TaskV>::empty());
    }
    Ok((ops, Vec::new()))
}

/// Exports a document record, as given by [`spec_document_ops`].
pub fn document_ops(dest: DirPath, node: Json) -> (r: Result<(Vec<FsOp>, Vec<Task>), ExportError>)
    ensures
        match r {
            Ok((ops, tasks)) => spec_document_ops(path_view(dest@), node) == Ok::<
                (Seq<OpV>, Seq<TaskV>),
                ErrorV,
            >((ops_view(ops@), tasks_view(tasks@))),
            Err(e) => spec_document_ops(path_view(dest@), node) == Err::<
                (Seq<OpV>, Seq<TaskV>),
                ErrorV,
            >(e@),
        },
{
    let mut at = match attachment_ops(&node, &dest, "attachment_") {
        Ok(v) => v,
        Err(e) => {
            return Err(e);
        },
    };
    let ghost atv = ops_view(at@);
    let ghost destv = path_view(dest@);
    let mut ops: Vec<FsOp> = Vec::new();
    ops.push(FsOp::CreateDir { path: clone_path(&dest) });
    ops.push(
        FsOp::WriteRecord { path: path_push(&dest, String::from_str("info.json")), record: node },
    );
    let ghost headv = ops_view(ops@);
    ops.append(&mut at);
    proof {
        assert(ops_view(ops@) =~= headv + atv);
        assert(headv =~= seq![
            OpV::CreateDir { path: destv },
            OpV::WriteRecord { path: destv.push("info.json"@), record: node },
        ]);
        assert(tasks_view(Seq::<Task>::empty()) =~= Seq::<TaskV>::empty());
    }
    Ok((ops, Vec::new()))
}

/// Exports an assignment record and queues its submissions and grade, per
/// [`spec_assignment_ops`].
pub fn assignment_ops(dest: DirPath, url: String, node: Json) -> (r: Result<
    (Vec<FsOp>, Vec<Task>),
    ExportError,
>)
    ensures
        match r {
            Ok((ops, tasks)) => spec_assignment_ops(path_view(dest@), url@, node) == Ok::<
                (Seq<OpV>, Seq<TaskV>),
                ErrorV,
            >((ops_view(ops@), tasks_view(tasks@))),
            Err(e) => spec_assignment_ops(path_view(dest@), url@, node) == Err::<
                (Seq<OpV>, Seq<TaskV>),
                ErrorV,
            >(e@),
        },
{
    let ghost destv = path_view(dest@);
    let mut ops: Vec<FsOp> = Vec::new();
    ops.push(FsOp::CreateDir { path: clone_path(&dest) });
    ops.push(
        FsOp::WriteRecord { path: path_push(&dest, String::from_str("info.json")), record: node },
    );
    let mut tasks: Vec<Task> = Vec::new();
    tasks.push(Task::Submissions { dest: clone_path(&dest), url: url.clone() });
    tasks.push(Task::Grade { dest, url });
    proof {
        assert(ops_view(ops@) =~= seq![
            OpV::CreateDir { path: destv },
            OpV::WriteRecord { path: destv.push("info.json"@), record: node },
        ]);
        assert(tasks_view(tasks@) =~= seq![
            TaskV::Submissions { dest: destv, url: url@ },
            TaskV::Grade { dest: destv, url: url@ },
        ]);
    }
    Ok((ops, tasks))
}

/// Expands a submissions record into one task per revision, per
/// [`spec_submissions_ops`].
#[verifier::loop_isolation(false)]
pub fn submissions_ops(dest: DirPath, node: Json) -> (r: Result<
    (Vec<FsOp>, Vec<Task>),
    ExportError,
>)
    ensures
        match r {
            Ok((ops, tasks)) => spec_submissions_ops(path_view(dest@), node) == Ok::<
                (Seq<OpV>, Seq<TaskV>),
                ErrorV,
            >((ops_view(ops@), tasks_view(tasks@))),
            Err(e) => spec_submissions_ops(path_view(dest@), node) == Err::<
                (Seq<OpV>, Seq<TaskV>),
                ErrorV,
            >(e@),
        },
{
    let ghost destv = path_view(dest@);
    proof {
        assert(ops_view(Seq::<FsOp>::empty()) =~= Seq::<OpV>::empty());
    }
    let mut revs = match node.take_array("revision") {
        Some(v) => v,
        None => {
            return Err(ExportError::MissingField(Field::Revisions));
        },
    };
    let ghost orig = revs@;
    let mut tasks: Vec<Task> = Vec::new();
    proof {
        assert(orig.skip(0) =~= orig);
        assert(tasks_view(tasks@) + spec_revision_tasks(orig, destv) =~= spec_revision_tasks(
            orig,
            destv,
        ));
    }
    while revs.len() > 0
        invariant
            revs@.len() <= orig.len(),
            revs@ =~= orig.skip(orig.len() - revs@.len()),
            spec_revision_tasks(orig, destv) == tasks_view(tasks@) + spec_revision_tasks(
                orig.skip(orig.len() - revs@.len()),
                destv,
            ),
        decreases revs@.len(),
    {
        let ghost k = orig.len() - revs@.len();
        let ghost tail = orig.skip(k);
        let ghost tsv = tasks_view(tasks@);
        proof {
            assert(tail[0] == orig[k]);
            assert(tail.drop_first() =~= orig.skip(k + 1));
        }
        let rev = revs.remove(0);
        proof {
            assert(revs@ =~= orig.skip(k + 1));
        }
        let id = match rev.get_int("revision_id") {
            Some(id) => id,
            None => {
                tasks.push(Task::Abort { err: ExportError::MissingField(Field::RevisionId) });
                proof {
                    assert(spec_revision_tasks(tail, destv) =~= seq![
                        TaskV::Abort { err: ErrorV::MissingField(Field::RevisionId) },
                    ]);
                    assert(tasks_view(tasks@) =~= tsv + seq![
                        TaskV::Abort { err: ErrorV::MissingField(Field::RevisionId) },
                    ]);
                }
                return Ok((Vec::new(), tasks));
            },
        };
        let seg = concat2("revision_", i64_to_string(id).as_str());
        let t = Task::Revision { dest: path_push(&dest, seg), node: rev };
        let ghost tv = t@;
        tasks.push(t);
        proof {
            assert(tasks_view(tasks@) =~= tsv + seq![tv]);
            assert(spec_revision_tasks(tail, destv) == seq![tv] + spec_revision_tasks(
                orig.skip(k + 1),
                destv,
            ));
            assert(tsv + seq![tv] + spec_revision_tasks(orig.skip(k + 1), destv) =~= tsv + (seq![
                tv,
            ] + spec_revision_tasks(orig.skip(k + 1), destv)));
        }
    }
    proof {
        assert(orig.skip(orig.len() as int) =~= Seq::<Json>::empty());
        assert(tasks_view(tasks@) + Seq::<TaskV>::empty() =~= tasks_view(tasks@));
    }
    Ok((Vec::new(), tasks))
}

/// Exports one submission revision, as given by [`spec_revision_ops`].
pub fn revision_ops(dest: DirPath, node: Json) -> (r: Result<(Vec<FsOp>, Vec<Task>), ExportError>)
    ensures
        match r {
            Ok((ops, tasks)) => spec_revision_ops(path_view(dest@), node) == Ok::<
                (Seq<OpV>, Seq<TaskV>),
                ErrorV,
            >((ops_view(ops@), tasks_view(tasks@))),
            Err(e) => spec_revision_ops(path_view(dest@), node) == Err::<
                (Seq<OpV>, Seq<TaskV>),
                ErrorV,
            >(e@),
        },
{
    proof {
        reveal_strlit("");
        assert(""@ =~= Seq::<char>::empty());
    }
    let mut at = match attachment_ops(&node, &dest, "") {
        Ok(v) => v,
        Err(e) => {
            return Err(e);
        },
    };
    let ghost atv = ops_view(at@);
    let ghost destv = path_view(dest@);
    let mut ops: Vec<FsOp> = Vec::new();
    ops.push(FsOp::CreateDir { path: clone_path(&dest) });
    ops.push(
        FsOp::WriteRecord { path: path_push(&dest, String::from_str("info.json")), record: node },
    );
    let ghost headv = ops_view(ops@);
    ops.append(&mut at);
    proof {
        assert(ops_view(ops@) =~= headv + atv);
        assert(headv =~= seq![
            OpV::CreateDir { path: destv },
            OpV::WriteRecord { path: destv.push("info.json"@), record: node },
        ]);
        assert(tasks_view(Seq::<Task>::empty()) =~= Seq::<TaskV>::empty());
    }
    Ok((ops, Vec::new()))
}

/// Exports a grade record, as given by [`spec_grade_ops`].
pub fn grade_ops(dest: DirPath, node: Json) -> (r: Result<(Vec<FsOp>, Vec<Task>), ExportError>)
    ensures
        match r {
            Ok((ops, tasks)) => spec_grade_ops(path_view(dest@), node) == Ok::<
                (Seq<OpV>, Seq<TaskV>),
                ErrorV,
            >((ops_view(ops@), tasks_view(tasks@))),
            Err(e) => spec_grade_ops(path_view(dest@), node) == Err::<
                (Seq<OpV>, Seq<TaskV>),
                ErrorV,
            >(e@),
        },
{
    let ghost destv = path_view(dest@);
    let mut ops: Vec<FsOp> = Vec::new();
    ops.push(
        FsOp::WriteRecord { path: path_push(&dest, String::from_str("grade.json")), record: node },
    );
    proof {
        assert(ops_view(ops@) =~= seq![
            OpV::WriteRecord { path: destv.push("grade.json"@), record: node },
        ]);
        assert(tasks_view(Seq::<Task>::empty()) =~= Seq::<TaskV>::empty());
    }
    Ok((ops, Vec::new()))
}

impl Task {
    /// The URL of the record the task waits for, as [`spec_fetch_url`] gives it.
    pub fn fetch_url(&self) -> (r: Option<String>)
        ensures
            match r {
                Some(u) => spec_fetch_url(self@) == Some(u@),
                None => spec_fetch_url(self@) is None,
            },
    {
        match self {
            Task::Folder { url, .. } => Some(url.clone()),
            Task::Page { url, .. } => Some(
                concat2(url.as_str(), "?with_attachments=TRUE&richtext=1"),
            ),
            Task::Document { url, .. } => Some(
                concat2(url.as_str(), "?with_attachments=TRUE&richtext=1"),
            ),
            Task::Assignment { url, .. } => Some(
                concat2(url.as_str(), "?with_attachments=TRUE&richtext=1"),
            ),
            Task::Submissions { url, .. } => Some(
                concat2(
                    replace_all(url.as_str(), "assignments", "submissions").as_str(),
                    "?with_attachments=TRUE&all_revisions=TRUE",
                ),
            ),
            Task::Grade { url, .. } => Some(
                replace_all(url.as_str(), "assignments/", "grades?assignment_id="),
            ),
            Task::Revision { .. } => None,
            Task::Abort { .. } => None,
        }
    }
}

/// The record a fetching task works on; the tasks that fetch nothing ignore
/// it.
pub open spec fn fetched_node(f: Option<Json>) -> Json {
    match f {
        Some(n) => n,
        None => Json::Null,
    }
}

fn take_node(fetched: Option<Json>) -> (r: Json)
    requires
        fetched is Some,
    ensures
        r == fetched_node(fetched),
{
    match fetched {
        Some(n) => n,
        None => Json::Null,
    }
}

/// Applies one task to its fetched record (which must be present exactly for
/// the tasks that fetch), as given by [`spec_apply`].
pub fn apply(task: Task, fetched: Option<Json>) -> (r: Result<(Vec<FsOp>, Vec<Task>), ExportError>)
    requires
        (fetched is Some) == (spec_fetch_url(task@) is Some),
    ensures
        match r {
            Ok((ops, tasks)) => spec_apply(task@, fetched_node(fetched)) == Ok::<
                (Seq<OpV>, Seq<TaskV>),
                ErrorV,
            >((ops_view(ops@), tasks_view(tasks@))),
            Err(e) => spec_apply(task@, fetched_node(fetched)) == Err::<
                (Seq<OpV>, Seq<TaskV>),
                ErrorV,
            >(e@),
        },
{
    match task {
        Task::Folder { dest, url: _ } => open_folder(dest, take_node(fetched)),
        Task::Page { dest, url: _ } => page_ops(dest, take_node(fetched)),
        Task::Document { dest, url: _ } => document_ops(dest, take_node(fetched)),
        Task::Assignment { dest, url } => assignment_ops(dest, url, take_node(fetched)),
        Task::Submissions { dest, url: _ } => submissions_ops(dest, take_node(fetched)),
        Task::Grade { dest, url: _ } => grade_ops(dest, take_node(fetched)),
        Task::Revision { dest, node } => revision_ops(dest, node),
        Task::Abort { err } => Err(err),
    }
}

/// A store of already-fetched records, keyed by URL. It stands for the
/// platform during a run of [`run_export`]: each record is handed out once,
/// on the first fetch of its URL.
pub struct Store {
    pub entries: Vec<(String, Json)>,
}

impl View for Store {
    type V = Seq<(String, Json)>;

    open spec fn view(&self) -> Seq<(String, Json)> {
        self.entries@
    }
}

proof fn lemma_store_find_skip(store: Seq<(String, Json)>, url: Seq<char>, i: int)
    requires
        0 <= i <= store.len(),
        forall|j: int| 0 <= j < i ==> store[j].0@ != url,
    ensures
        store_find(store, url) == match store_find(store.skip(i), url) {
            None => None::<int>,
            Some(k) => Some(k + i),
        },
    decreases i,
{
    if i == 0 {
        assert(store.skip(0) =~= store);
    } else {
        let rest = store.drop_first();
        lemma_store_find_skip(rest, url, i - 1);
        assert(rest.skip(i - 1) =~= store.skip(i));
    }
}

impl Store {
    /// An empty store.
    pub fn new() -> (r: Store)
        ensures
            r@ == Seq::<(String, Json)>::empty(),
    {
        Store { entries: Vec::new() }
    }

    /// Stores one record under its URL, behind the records already there.
    pub fn add(&mut self, url: String, node: Json)
        ensures
            final(self)@ == old(self)@.push((url, node)),
    {
        self.entries.push((url, node));
    }

    /// Hands out the first record stored under `url` and removes it, per
    /// [`spec_fetch`].
    #[verifier::loop_isolation(false)]
    pub fn fetch(&mut self, url: &str) -> (r: Option<Json>)
        ensures
            match r {
                Some(node) => spec_fetch(old(self)@, url@) == Some((node, final(self)@)),
                None => spec_fetch(old(self)@, url@) is None && final(self)@ == old(self)@,
            },
{
        let n = self.entries.len();
        let mut i: usize = 0;
        while i < n
            invariant
                i <= n,
                self == old(self),
                forall|j: int| 0 <= j < i ==> self.entries@[j].0@ != url@,
            decreases n - i,
        {
            if str_eq(self.entries[i].0.as_str(), url) {
                proof {
                    lemma_store_find_skip(self.entries@, url@, i as int);
                    assert(self.entries@.skip(i as int)[0] == self.entries@[i as int]);
                    assert(store_find(self.entries@.skip(i as int), url@) == Some(0int));
                }
                let pair = self.entries.remove(i);
                return Some(pair.1);
            }
            i += 1;
        }
        proof {
            lemma_store_find_skip(self.entries@, url@, n as int);
            assert(self.entries@.skip(n as int) =~= Seq::<(String, Json)>::empty());
        }
        None
    }
}

/// Runs the whole course-files walk against a store: the root folder record
/// (fetched by the caller, as folder id 0 of the course) is opened at `dest`,
/// and every record below it is fetched from the store. Returns the
/// filesystem operations of the complete export, in order, or the first
/// failure, exactly as given by [`spec_export`].
#[verifier::loop_isolation(false)]
pub fn run_export(store: Store, dest: DirPath, root: Json) -> (r: Result<Vec<FsOp>, ExportError>)
    ensures
        match r {
            Ok(ops) => spec_export(store@, path_view(dest@), root) == Ok::<Seq<OpV>, ErrorV>(
                ops_view(ops@),
            ),
            Err(e) => spec_export(store@, path_view(dest@), root) == Err::<Seq<OpV>, ErrorV>(e@),
        },
{
    let ghost store0 = store@;
    let ghost destv = path_view(dest@);
    let mut store = store;
    let mut ops: Vec<FsOp>;
    let mut work: Vec<Task>;
    match open_folder(dest, root) {
        Err(e) => {
            return Err(e);
        },
        Ok((o, t)) => {
            ops = o;
            work = t;
        },
    }
    while work.len() > 0
        invariant
            spec_export(store0, destv, root) == prepend_run(
                ops_view(ops@),
                spec_run(store@, tasks_view(work@)),
            ),
        decreases store@.len(), work@.len(),
    {
        let ghost sb = store@;
        let ghost wv0 = tasks_view(work@);
        let task = work.remove(0);
        let ghost tv = task@;
        proof {
            assert(wv0[0] == tv);
            assert(tasks_view(work@) =~= wv0.drop_first());
        }
        let fetch = task.fetch_url();
        match fetch {
            Some(url) => {
                match store.fetch(url.as_str()) {
                    None => {
                        proof {
                            assert(spec_run(sb, wv0) == Err::<Seq<OpV>, ErrorV>(
                                ErrorV::NotFound(url@),
                            ));
                        }
                        return Err(ExportError::NotFound(url));
                    },
                    Some(node) => {
                        match apply(task, Some(node)) {
                            Err(e) => {
                                proof {
                                    assert(spec_run(sb, wv0) == Err::<Seq<OpV>, ErrorV>(e@));
                                }
                                return Err(e);
                            },
                            Ok((mut o, mut sub)) => {
                                let ghost ov = ops_view(o@);
                                let ghost subv = tasks_view(sub@);
                                let ghost opsv = ops_view(ops@);
                                proof {
                                    lemma_store_find_range(sb, url@);
                                    assert(spec_run(sb, wv0) == prepend_run(
                                        ov,
                                        spec_run(store@, subv + wv0.drop_first()),
                                    ));
                                }
                                ops.append(&mut o);
                                sub.append(&mut work);
                                work = sub;
                                proof {
                                    assert(ops_view(ops@) =~= opsv + ov);
                                    assert(tasks_view(work@) =~= subv + wv0.drop_first());
                                    lemma_prepend_run_assoc(
                                        opsv,
                                        ov,
                                        spec_run(store@, tasks_view(work@)),
                                    );
                                }
                            },
                        }
                    },
                }
            },
            None => {
                match apply(task, None) {
                    Err(e) => {
                        proof {
                            assert(spec_run(sb, wv0) == Err::<Seq<OpV>, ErrorV>(e@));
                        }
                        return Err(e);
                    },
                    Ok((mut o, mut sub)) => {
                        let ghost ov = ops_view(o@);
                        let ghost subv = tasks_view(sub@);
                        let ghost opsv = ops_view(ops@);
                        proof {
                            lemma_nofetch_no_subtasks(tv, Json::Null);
                            assert(subv.len() == 0);
                            assert(spec_run(sb, wv0) == prepend_run(
                                ov,
                                spec_run(store@, subv + wv0.drop_first()),
                            ));
                        }
                        ops.append(&mut o);
                        sub.append(&mut work);
                        work = sub;
                        proof {
                            assert(ops_view(ops@) =~= opsv + ov);
                            assert(tasks_view(work@) =~= subv + wv0.drop_first());
                            lemma_prepend_run_assoc(opsv, ov, spec_run(store@, tasks_view(work@)));
                        }
                    },
                }
            },
        }
    }
    proof {
        assert(tasks_view(work@) =~= Seq::<TaskV>::empty());
        assert(spec_run(store@, tasks_view(work@)) == Ok::<Seq<OpV>, ErrorV>(Seq::empty()));
        assert(ops_view(ops@) + Seq::<OpV>::empty() =~= ops_view(ops@));
    }
    Ok(ops)
}

} // verus!
