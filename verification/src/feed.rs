//! Cursor-based pagination over feed-like endpoints (activity updates, inbox
//! and sent messages), and the per-entry work of those feeds. Any page may
//! carry `links.next`, an absolute URL that already encodes all cursor state;
//! fetching it unmodified yields the next page, and its absence is the sole
//! end-of-pagination signal.

use vstd::prelude::*;

use crate::error::{ErrorV, ExportError, Field};
use crate::json::{spec_get, spec_get_array, spec_get_int, spec_get_string, Json};
use crate::text::{concat2, i64_to_string, spec_dec_signed};
use crate::tree::{
    attachment_ops, lemma_store_find_range, ops_view, path_push, path_view, spec_fetch,
    spec_node_attachments, DirPath, FsOp, OpV, Store,
};
use crate::users::{run_claims, UserSet};

verus! {

/// The `links.next` URL of a page, if any: the cursor to the next page.
pub open spec fn spec_next_link(page: Json) -> Option<Seq<char>> {
    match spec_get(page, "links"@) {
        None => None,
        Some(links) => spec_get_string(links, "next"@),
    }
}

/// The collection entries of a feed page under `key` (for example `update`
/// or `message`); a page without that array is a protocol violation.
pub open spec fn spec_page_items(page: Json, key: Seq<char>) -> Option<Seq<Json>> {
    spec_get_array(page, key)
}

/// The `links.next` URL of a page, as given by [`spec_next_link`].
pub fn next_link(page: &Json) -> (r: Option<String>)
    ensures
        match r {
            Some(u) => spec_next_link(*page) == Some(u@),
            None => spec_next_link(*page) is None,
        },
{
    match page.get("links") {
        Some(links) => links.get_string("next"),
        None => None,
    }
}

/// The collection entries of a feed page, as given by [`spec_page_items`].
pub fn page_items<'a>(page: &'a Json, key: &str) -> (r: Result<&'a Vec<Json>, ExportError>)
    ensures
        match r {
            Ok(items) => spec_page_items(*page, key@) == Some(items@),
            Err(e) => spec_page_items(*page, key@) is None && e@ == ErrorV::MissingField(
                Field::FeedItems,
            ),
        },
{
    match page.get_array(key) {
        Some(items) => Ok(items),
        None => Err(ExportError::MissingField(Field::FeedItems)),
    }
}

/// The pages of a feed walk against a store, in fetch order: each page is
/// fetched at its predecessor's `links.next`, must carry its collection
/// array, and the walk ends at the first page without a next link. The walk
/// terminates because every fetch consumes its store entry.
pub open spec fn spec_feed_walk(
    store: Seq<(String, Json)>,
    url: Seq<char>,
    key: Seq<char>,
) -> Result<Seq<Json>, ErrorV>
    decreases store.len(),
    via spec_feed_walk_decreases
{
    match spec_fetch(store, url) {
        None => Err(ErrorV::NotFound(url)),
        Some((page, store2)) => match spec_page_items(page, key) {
            None => Err(ErrorV::MissingField(Field::FeedItems)),
            Some(_) => match spec_next_link(page) {
                None => Ok(seq![page]),
                Some(next) => match spec_feed_walk(store2, next, key) {
                    Err(e) => Err(e),
                    Ok(rest) => Ok(seq![page] + rest),
                },
            },
        },
    }
}

#[via_fn]
proof fn spec_feed_walk_decreases(store: Seq<(String, Json)>, url: Seq<char>, key: Seq<char>) {
    lemma_store_find_range(store, url);
}

/// Walks a feed against a store, as given by [`spec_feed_walk`]: the returned pages
/// are every page of the feed, in fetch order.
#[verifier::loop_isolation(false)]
pub fn run_feed(store: Store, start_url: String, key: &str) -> (r: Result<Vec<Json>, ExportError>)
    ensures
        match r {
            Ok(pages) => spec_feed_walk(store@, start_url@, key@) == Ok::<Seq<Json>, ErrorV>(
                pages@,
            ),
            Err(e) => spec_feed_walk(store@, start_url@, key@) == Err::<Seq<Json>, ErrorV>(e@),
        },
{
    let ghost store0 = store@;
    let ghost url0 = start_url@;
    let mut store = store;
    let mut url = start_url;
    let mut pages: Vec<Json> = Vec::new();
    loop
        invariant
            spec_feed_walk(store0, url0, key@) == (match spec_feed_walk(store@, url@, key@) {
                Ok(rest) => Ok::<Seq<Json>, ErrorV>(pages@ + rest),
                Err(e) => Err::<Seq<Json>, ErrorV>(e),
            }),
        decreases store@.len(),
    {
        let ghost sb = store@;
        let page = match store.fetch(url.as_str()) {
            None => {
                return Err(ExportError::NotFound(url));
            },
            Some(p) => p,
        };
        proof {
            lemma_store_find_range(sb, url@);
        }
        match page.get_array(key) {
            Some(_) => {},
            None => {
                return Err(ExportError::MissingField(Field::FeedItems));
            },
        }
        let next = next_link(&page);
        let ghost pagesv = pages@;
        match next {
            Some(n) => {
                pages.push(page);
                proof {
                    assert(pages@ =~= pagesv.push(page));
                    assert forall|rest: Seq<Json>|
                        pagesv + (seq![page] + rest) =~= pages@ + rest by {}
                }
                url = n;
            },
            None => {
                pages.push(page);
                proof {
                    assert(pagesv + seq![page] =~= pages@);
                }
                return Ok(pages);
            },
        }
    }
}

/// Pagination termination: a successful feed walk yields at least one page
/// and at most one per stored record; every page but the last carries a next
/// link, the last carries none, and every page carries its collection array.
/// So over a feed whose pages link each other in order, the walk fetches
/// exactly the pages up to and including the first one without a next link,
/// and yields them in order.
pub proof fn lemma_feed_walk_shape(store: Seq<(String, Json)>, url: Seq<char>, key: Seq<char>)
    ensures
        match spec_feed_walk(store, url, key) {
            Ok(pages) => {
                &&& 1 <= pages.len() <= store.len()
                &&& spec_next_link(pages.last()) is None
                &&& forall|i: int| 0 <= i < pages.len() - 1 ==> spec_next_link(#[trigger] pages[i]) is Some
                &&& forall|i: int| 0 <= i < pages.len() ==> spec_page_items(#[trigger] pages[i], key) is Some
            },
            Err(_) => true,
        },
    decreases store.len(),
{
    match spec_fetch(store, url) {
        None => {},
        Some((page, store2)) => {
            lemma_store_find_range(store, url);
            match spec_next_link(page) {
                None => {},
                Some(next) => {
                    lemma_feed_walk_shape(store2, next, key);
                },
            }
        },
    }
}

/// The inbox feed is walked first, the sent feed second: when a page has no
/// next link, the walk moves to the sent feed once, and only then ends.
pub open spec fn spec_after_page(page: Json, sent_done: bool) -> (Option<Seq<char>>, bool) {
    match spec_next_link(page) {
        Some(next) => (Some(next), sent_done),
        None => if !sent_done {
            (Some(sent_messages_url()), true)
        } else {
            (None, true)
        },
    }
}

/// The fixed entry URL of the sent-messages feed.
pub open spec fn sent_messages_url() -> Seq<char> {
    "https://api.schoology.com/v1/messages/sent?extended&options&start=0&limit=50&created_offset=0&with_attachments=TRUE&richtext=1"@
}

/// After one messages page: the URL to fetch next and whether the sent feed
/// has been entered, as given by [`spec_after_page`].
pub fn after_messages_page(page: &Json, sent_done: bool) -> (r: (Option<String>, bool))
    ensures
        ({
            let (u, d) = spec_after_page(*page, sent_done);
            match r.0 {
                Some(n) => u == Some(n@) && r.1 == d,
                None => u is None && r.1 == d,
            }
        }),
{
    match next_link(page) {
        Some(next) => (Some(next), sent_done),
        None => if !sent_done {
            (
                Some(
                    String::from_str(
                        "https://api.schoology.com/v1/messages/sent?extended&options&start=0&limit=50&created_offset=0&with_attachments=TRUE&richtext=1",
                    ),
                ),
                true,
            )
        } else {
            (None, true)
        },
    }
}

// ---------------------------------------------------------------------------
// The per-entry work of the two feeds
// ---------------------------------------------------------------------------
/// The user identifiers named by the comments of one activity update, in
/// order; a comment without a `uid` is an error.
pub open spec fn spec_comment_uids(comments: Seq<Json>) -> Result<Seq<i64>, ErrorV>
    decreases comments.len(),
{
    if comments.len() == 0 {
        Ok(Seq::empty())
    } else {
        match spec_get_int(comments[0], "uid"@) {
            None => Err(ErrorV::MissingField(Field::CommentUid)),
            Some(uid) => match spec_comment_uids(comments.drop_first()) {
                Err(e) => Err(e),
                Ok(rest) => Ok(seq![uid] + rest),
            },
        }
    }
}

/// The user identifiers one activity update asks to have exported: its
/// author's, then its commenters', in order.
pub open spec fn spec_update_uids(update: Json) -> Result<Seq<i64>, ErrorV> {
    match spec_get_int(update, "uid"@) {
        None => Err(ErrorV::MissingField(Field::UpdateUid)),
        Some(uid) => match spec_get_array(update, "comments"@) {
            None => Err(ErrorV::MissingField(Field::UpdateComments)),
            Some(comments) => match spec_comment_uids(comments) {
                Err(e) => Err(e),
                Ok(rest) => Ok(seq![uid] + rest),
            },
        },
    }
}

/// Of `ids`, in order, the ones not yet in `users` at their turn: the users
/// whose export this run of claims wins.
pub open spec fn spec_fresh(users: Set<i64>, ids: Seq<i64>) -> Seq<i64>
    decreases ids.len(),
{
    if ids.len() == 0 {
        Seq::empty()
    } else if !users.contains(ids[0]) {
        seq![ids[0]] + spec_fresh(users.insert(ids[0]), ids.drop_first())
    } else {
        spec_fresh(users, ids.drop_first())
    }
}

/// The attachment prefix of one activity update: `update_<id>_`.
pub open spec fn spec_update_prefix(id: int) -> Seq<char> {
    "update_"@ + spec_dec_signed(id) + "_"@
}

/// The work one activity update entry asks of the driver.
#[derive(Debug)]
pub struct UpdatePlan {
    /// The users to export now, in order: the update's author and its
    /// commenters, each only if this run of claims won its export.
    pub to_export: Vec<i64>,
    /// The download operations for the update's attachments, named
    /// `update_<id>_<filename>` in the updates directory.
    pub ops: Vec<FsOp>,
}

/// What one activity update entry yields: the freshly claimed users, the
/// claim set afterwards, and the attachment downloads.
pub open spec fn spec_update_plan(
    update: Json,
    users: Set<i64>,
    dir: Seq<Seq<char>>,
) -> Result<(Seq<i64>, Set<i64>, Seq<OpV>), ErrorV> {
    match spec_get_int(update, "id"@) {
        None => Err(ErrorV::MissingField(Field::FeedEntryId)),
        Some(id) => match spec_update_uids(update) {
            Err(e) => Err(e),
            Ok(uids) => match spec_node_attachments(update, dir, spec_update_prefix(id as int)) {
                Err(e) => Err(e),
                Ok(at) => Ok((spec_fresh(users, uids), run_claims(users, uids), at)),
            },
        },
    }
}

/// Processes one activity update entry: claims its author and commenters
/// against the dedup set and plans its attachment downloads, per
/// [`spec_update_plan`]. The set only ever grows, also on failure.
#[verifier::loop_isolation(false)]
pub fn process_update(update: &Json, users: &mut UserSet, dir: &DirPath) -> (r: Result<
    UpdatePlan,
    ExportError,
>)
    ensures
        old(users)@.subset_of(final(users)@),
        match r {
            Ok(plan) => spec_update_plan(*update, old(users)@, path_view(dir@)) == Ok::<
                (Seq<i64>, Set<i64>, Seq<OpV>),
                ErrorV,
            >((plan.to_export@, final(users)@, ops_view(plan.ops@))),
            Err(e) => spec_update_plan(*update, old(users)@, path_view(dir@)) == Err::<
                (Seq<i64>, Set<i64>, Seq<OpV>),
                ErrorV,
            >(e@),
        },
{
    let id = match update.get_int("id") {
        Some(id) => id,
        None => {
            return Err(ExportError::MissingField(Field::FeedEntryId));
        },
    };
    let uid = match update.get_int("uid") {
        Some(uid) => uid,
        None => {
            return Err(ExportError::MissingField(Field::UpdateUid));
        },
    };
    let comments = match update.get_array("comments") {
        Some(c) => c,
        None => {
            return Err(ExportError::MissingField(Field::UpdateComments));
        },
    };
    let n = comments.len();
    let mut uids: Vec<i64> = Vec::new();
    uids.push(uid);
    let mut i: usize = 0;
    proof {
        assert(comments@.skip(0) =~= comments@);
    }
    while i < n
        invariant
            n == comments@.len(),
            i <= n,
            uids@.len() == i + 1,
            uids@[0] == uid,
            spec_update_uids(*update) == (match spec_comment_uids(comments@.skip(i as int)) {
                Err(e) => Err::<Seq<i64>, ErrorV>(e),
                Ok(rest) => Ok::<Seq<i64>, ErrorV>(uids@ + rest),
            }),
        decreases n - i,
    {
        let ghost tail = comments@.skip(i as int);
        let ghost uidsv = uids@;
        proof {
            assert(tail[0] == comments@[i as int]);
            assert(tail.drop_first() =~= comments@.skip(i as int + 1));
        }
        match comments[i].get_int("uid") {
            Some(cuid) => {
                uids.push(cuid);
                i += 1;
                proof {
                    assert forall|rest: Seq<i64>| uidsv + (seq![cuid] + rest) =~= uids@ + rest by {}
                }
            },
            None => {
                return Err(ExportError::MissingField(Field::CommentUid));
            },
        }
    }
    proof {
        assert(comments@.skip(n as int) =~= Seq::<Json>::empty());
        assert(spec_comment_uids(Seq::<Json>::empty()) == Ok::<Seq<i64>, ErrorV>(Seq::empty()));
        assert(uids@ + Seq::<i64>::empty() =~= uids@);
    }
    // the attachments are planned before the claims so that a bad attachment
    // entry leaves the dedup set untouched; the claims come from the same
    // record either way
    let prefix = concat2(concat2("update_", i64_to_string(id).as_str()).as_str(), "_");
    let ops = match attachment_ops(update, dir, prefix.as_str()) {
        Ok(ops) => ops,
        Err(e) => {
            return Err(e);
        },
    };
    let m = uids.len();
    let mut to_export: Vec<i64> = Vec::new();
    let mut j: usize = 0;
    proof {
        assert(uids@.skip(0) =~= uids@);
        assert(Seq::<i64>::empty() + spec_fresh(users@, uids@) =~= spec_fresh(users@, uids@));
    }
    while j < m
        invariant
            m == uids@.len(),
            j <= m,
            old(users)@.subset_of(users@),
            spec_fresh(old(users)@, uids@) == to_export@ + spec_fresh(
                users@,
                uids@.skip(j as int),
            ),
            run_claims(old(users)@, uids@) == run_claims(users@, uids@.skip(j as int)),
        decreases m - j,
    {
        let ghost tail = uids@.skip(j as int);
        let ghost tev = to_export@;
        proof {
            assert(tail[0] == uids@[j as int]);
            assert(tail.drop_first() =~= uids@.skip(j as int + 1));
        }
        let u = uids[j];
        let ghost before = users@;
        if users.claim(u) {
            to_export.push(u);
            proof {
                assert forall|rest: Seq<i64>| tev + (seq![u] + rest) =~= to_export@ + rest by {}
            }
        } else {
            proof {
                assert(users@ =~= before);
            }
        }
        j += 1;
    }
    proof {
        assert(uids@.skip(m as int) =~= Seq::<i64>::empty());
        assert(to_export@ + Seq::<i64>::empty() =~= to_export@);
    }
    Ok(UpdatePlan { to_export, ops })
}

/// The work one inbox or sent message entry asks of the driver, in the order
/// the driver must do it: fetch the detail record at `detail_url` and write
/// it at `detail_path`, perform the attachment downloads, then export the
/// author if claimed.
#[derive(Debug)]
pub struct MessagePlan {
    /// The URL of the message's own detail record, from `links.self`.
    pub detail_url: String,
    /// Where the detail record is written: `message_<id>.json` in the
    /// messages directory.
    pub detail_path: DirPath,
    /// The download operations for the message's attachments, named
    /// `message_<id>_<filename>` in the messages directory.
    pub ops: Vec<FsOp>,
    /// The author to export, when the entry names one and this run of claims
    /// won its export; a message without an `author_id` is not an error.
    pub export_author: Option<i64>,
}

/// The attachment prefix of one message: `message_<id>_`.
pub open spec fn spec_message_prefix(id: int) -> Seq<char> {
    "message_"@ + spec_dec_signed(id) + "_"@
}

/// The file name of one message's detail record: `message_<id>.json`.
pub open spec fn spec_message_file(id: int) -> Seq<char> {
    "message_"@ + spec_dec_signed(id) + ".json"@
}

/// What one message entry yields: the detail URL and path, the attachment
/// downloads, the author to export (if any and fresh), and the claim set
/// afterwards.
pub open spec fn spec_message_plan(
    message: Json,
    users: Set<i64>,
    dir: Seq<Seq<char>>,
) -> Result<(Seq<char>, Seq<Seq<char>>, Seq<OpV>, Option<i64>, Set<i64>), ErrorV> {
    match spec_get_int(message, "id"@) {
        None => Err(ErrorV::MissingField(Field::FeedEntryId)),
        Some(id) => match spec_next_self_link(message) {
            None => Err(ErrorV::MissingField(Field::MessageUrl)),
            Some(url) => match spec_node_attachments(
                message,
                dir,
                spec_message_prefix(id as int),
            ) {
                Err(e) => Err(e),
                Ok(at) => {
                    let author = spec_get_int(message, "author_id"@);
                    match author {
                        None => Ok(
                            (url, dir.push(spec_message_file(id as int)), at, None, users),
                        ),
                        Some(a) => Ok(
                            (
                                url,
                                dir.push(spec_message_file(id as int)),
                                at,
                                if users.contains(a) {
                                    None
                                } else {
                                    Some(a)
                                },
                                users.insert(a),
                            ),
                        ),
                    }
                },
            },
        },
    }
}

/// The `links.self` URL of a record: where its own detail record lives.
pub open spec fn spec_next_self_link(record: Json) -> Option<Seq<char>> {
    match spec_get(record, "links"@) {
        None => None,
        Some(links) => spec_get_string(links, "self"@),
    }
}

/// Processes one message entry: plans its detail fetch and write, its
/// attachment downloads, and claims its author against the dedup set, per
/// [`spec_message_plan`]. The set only ever grows, also on failure.
pub fn process_message(message: &Json, users: &mut UserSet, dir: &DirPath) -> (r: Result<
    MessagePlan,
    ExportError,
>)
    ensures
        old(users)@.subset_of(final(users)@),
        match r {
            Ok(plan) => spec_message_plan(*message, old(users)@, path_view(dir@)) == Ok::<
                (Seq<char>, Seq<Seq<char>>, Seq<OpV>, Option<i64>, Set<i64>),
                ErrorV,
            >(
                (
                    plan.detail_url@,
                    path_view(plan.detail_path@),
                    ops_view(plan.ops@),
                    plan.export_author,
                    final(users)@,
                ),
            ),
            Err(e) => spec_message_plan(*message, old(users)@, path_view(dir@)) == Err::<
                (Seq<char>, Seq<Seq<char>>, Seq<OpV>, Option<i64>, Set<i64>),
                ErrorV,
            >(e@),
        },
{
    let id = match message.get_int("id") {
        Some(id) => id,
        None => {
            return Err(ExportError::MissingField(Field::FeedEntryId));
        },
    };
    let detail_url = match message.get("links") {
        Some(links) => match links.get_string("self") {
            Some(u) => u,
            None => {
                return Err(ExportError::MissingField(Field::MessageUrl));
            },
        },
        None => {
            return Err(ExportError::MissingField(Field::MessageUrl));
        },
    };
    let id_str = i64_to_string(id);
    let prefix = concat2(concat2("message_", id_str.as_str()).as_str(), "_");
    let ops = match attachment_ops(message, dir, prefix.as_str()) {
        Ok(ops) => ops,
        Err(e) => {
            return Err(e);
        },
    };
    let file = concat2(concat2("message_", id_str.as_str()).as_str(), ".json");
    let detail_path = path_push(dir, file);
    let export_author = match message.get_int("author_id") {
        None => None,
        Some(a) => {
            if users.claim(a) {
                Some(a)
            } else {
                None
            }
        },
    };
    proof {
        if spec_get_int(*message, "author_id"@) is None {
            assert(users@ =~= old(users)@);
        }
    }
    Ok(MessagePlan { detail_url, detail_path, ops, export_author })
}

} // verus!
