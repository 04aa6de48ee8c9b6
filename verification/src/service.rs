//! The command service: what each request does to the store and what it
//! answers. Work that lies outside the store, which is running a query on
//! the full-text index, writing to the clipboard and removing artifact
//! files, is handed back to the caller as part of the reply.

use crate::error::{kind_name, ErrorKind};
use crate::ipc::{IpcRequest, IpcResponse, RequestView};
use crate::listing::{
    CopyPayload, is_listing, ItemSummary, list_scope, payload_of, Scope, summary_views,
};
use crate::model::{
    after_delete, after_set_starred, all_unstarred, any_of, by_ids, has_id, StoreView,
};
use crate::query::{build_fts_prefix_query, prefix_query};
use crate::store::{is_removal, Removal, Store};
use vstd::prelude::*;

verus! {

/// The number of items that a listing shows where the request names no
/// limit.
pub const DEFAULT_LIMIT: u32 = 50;

/// What the service answers, and what is left for the caller to do.
#[derive(Debug)]
pub enum Reply {
    /// The rows of a listing.
    Items(Vec<ItemSummary>),
    /// A search to run on the full-text index with this query text; the
    /// ids that it ranks are then answered by `Store::search_results`.
    Search { query: String, limit: u32 },
    /// The number of items whose pin was set.
    Updated(u64),
    /// What to put on the clipboard.
    Copy(CopyPayload),
    /// What a deletion by ids took; the artifact files of `hashes` remain
    /// to be removed.
    Deleted(Removal),
    /// What the bulk deletion took; the artifact files of `hashes` remain to
    /// be removed.
    DeletedAll(Removal),
    /// The number of ids that a delete-items command was given, and what it
    /// took.
    DeletedItems { deleted_count: u64, removal: Removal },
    /// The settings are asked for.
    Settings,
}

/// The limit of a listing: the one that the request names, or the default.
pub open spec fn limit_or_default(limit: Option<u32>) -> u32 {
    match limit {
        Some(n) => n,
        None => DEFAULT_LIMIT,
    }
}

/// The store after a request.
pub open spec fn after_request(s: StoreView, request: RequestView) -> StoreView {
    match request {
        RequestView::Star { id, value } => after_set_starred(s, id as int, value),
        RequestView::Delete { ids } => if ids.len() == 0 {
            s
        } else {
            after_delete(s, by_ids(ids))
        },
        RequestView::DeleteAllExceptStarred => after_delete(s, all_unstarred()),
        RequestView::DeleteItems { ids } => after_delete(s, any_of(ids)),
        _ => s,
    }
}

/// Whether `result` is the answer to `request` on the store `s`.
pub open spec fn is_answer(
    s: StoreView,
    request: RequestView,
    result: Result<Reply, ErrorKind>,
) -> bool {
    match request {
        RequestView::List { limit, starred_only } => result matches Ok(Reply::Items(rows))
            && is_listing(
            s,
            list_scope(starred_only),
            limit_or_default(limit) as int,
            summary_views(rows@),
        ),
        RequestView::Gallery { limit } => result matches Ok(Reply::Items(rows)) && is_listing(
            s,
            Scope::WithImage,
            limit_or_default(limit) as int,
            summary_views(rows@),
        ),
        RequestView::Search { query, limit } => if prefix_query(query).len() == 0 {
            result matches Ok(Reply::Items(rows)) && rows@.len() == 0
        } else {
            result matches Ok(Reply::Search { query: text, limit: bound }) && text@ == prefix_query(
                query,
            ) && bound == limit_or_default(limit)
        },
        RequestView::Star { id, value } => result matches Ok(Reply::Updated(n)) && n == (if has_id(
            s,
            id as int,
        ) {
            1int
        } else {
            0int
        }),
        RequestView::Copy { id } => match payload_of(s, id as int) {
            Some(payload) => result matches Ok(Reply::Copy(found)) && found@ == payload,
            None => result == Err::<Reply, ErrorKind>(ErrorKind::NotFound),
        },
        RequestView::Delete { ids } => if ids.len() == 0 {
            result == Err::<Reply, ErrorKind>(ErrorKind::InvalidArgument)
        } else {
            result matches Ok(Reply::Deleted(removal)) && is_removal(removal, s, by_ids(ids))
        },
        RequestView::DeleteAllExceptStarred => result matches Ok(Reply::DeletedAll(removal))
            && is_removal(removal, s, all_unstarred()),
        RequestView::DeleteItems { ids } => result matches Ok(
            Reply::DeletedItems { deleted_count, removal },
        ) && deleted_count == ids.len() && is_removal(removal, s, any_of(ids)),
        RequestView::GetSettings => result matches Ok(Reply::Settings),
    }
}

/// Carries out one request on the store. Listings and the copy command
/// read the store; the star and delete commands change it; a search with
/// no token in its text is answered with no rows, and any other search is
/// handed back with its query text; a delete command with no ids is an
/// invalid argument.
pub fn dispatch_request(store: &mut Store, request: IpcRequest) -> (result: Result<
    Reply,
    ErrorKind,
>)
    requires
        old(store).well_formed(),
    ensures
        final(store).well_formed(),
        final(store)@ == after_request(old(store)@, request@),
        is_answer(old(store)@, request@, result),
{
    match request {
        IpcRequest::List { limit, starred_only } => {
            let bound = match limit {
                Some(n) => n,
                None => DEFAULT_LIMIT,
            };
            Ok(Reply::Items(store.list(bound, starred_only)))
        },
        IpcRequest::Search { query, limit } => {
            let bound = match limit {
                Some(n) => n,
                None => DEFAULT_LIMIT,
            };
            let text = build_fts_prefix_query(query.as_str());
            if text.as_str().is_empty() {
                Ok(Reply::Items(Vec::new()))
            } else {
                Ok(Reply::Search { query: text, limit: bound })
            }
        },
        IpcRequest::Gallery { limit } => {
            let bound = match limit {
                Some(n) => n,
                None => DEFAULT_LIMIT,
            };
            Ok(Reply::Items(store.gallery(bound)))
        },
        IpcRequest::Star { id, value } => Ok(Reply::Updated(store.set_starred(id, value))),
        IpcRequest::Copy { id } => match store.copy_payload(id) {
            Ok(payload) => Ok(Reply::Copy(payload)),
            Err(kind) => Err(kind),
        },
        IpcRequest::Delete { ids } => {
            if ids.len() == 0 {
                Err(ErrorKind::InvalidArgument)
            } else {
                Ok(Reply::Deleted(store.delete_ids(ids.as_slice())))
            }
        },
        IpcRequest::DeleteAllExceptStarred => {
            Ok(Reply::DeletedAll(store.delete_all_except_starred()))
        },
        IpcRequest::DeleteItems { ids } => {
            let deleted_count = ids.len() as u64;
            let removal = store.delete_each(ids.as_slice());
            Ok(Reply::DeletedItems { deleted_count, removal })
        },
        IpcRequest::GetSettings => Ok(Reply::Settings),
    }
}

/// The response to a request that failed: not `ok`, without data, and with
/// the name of the kind of failure as its error text.
pub fn failure_response<T>(kind: ErrorKind) -> (response: IpcResponse<T>)
    ensures
        !response.ok,
        response.data is None,
        response.error matches Some(text) && text@ == kind_name(kind),
{
    IpcResponse::err(kind.name().to_owned())
}

/// The end of a copy command, once the clipboard tool was given the
/// payload: done where the tool reported success, an external tool failure
/// where it did not.
pub fn copy_outcome(tool_succeeded: bool) -> (result: Result<(), ErrorKind>)
    ensures
        result == (if tool_succeeded {
            Ok::<(), ErrorKind>(())
        } else {
            Err::<(), ErrorKind>(ErrorKind::ExternalToolFailure)
        }),
{
    if tool_succeeded {
        Ok(())
    } else {
        Err(ErrorKind::ExternalToolFailure)
    }
}

} // verus!
