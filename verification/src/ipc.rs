//! The requests and responses of the command service, and the reading of a
//! request from a JSON value.

use crate::json::{
    as_array, as_bool, as_i64, as_text, as_u64, decode, json_of, JsonValue, member,
};
use crate::text::str_eq;
use vstd::prelude::*;

verus! {

/// A request to the command service.
#[derive(Debug)]
pub enum IpcRequest {
    /// List recent items, optionally pinned items only.
    List { limit: Option<u32>, starred_only: bool },
    /// Full-text search.
    Search { query: String, limit: Option<u32> },
    /// List the items with an image.
    Gallery { limit: Option<u32> },
    /// Pin or unpin an item.
    Star { id: i64, value: bool },
    /// Put an item back on the clipboard.
    Copy { id: i64 },
    /// Delete the listed items that are not pinned.
    Delete { ids: Vec<i64> },
    /// Delete every item that is not pinned.
    DeleteAllExceptStarred,
    /// Delete the listed items, pinned or not.
    DeleteItems { ids: Vec<i64> },
    /// Read the display and behaviour settings.
    GetSettings,
}

/// A request as a mathematical value.
pub enum RequestView {
    List { limit: Option<u32>, starred_only: bool },
    Search { query: Seq<char>, limit: Option<u32> },
    Gallery { limit: Option<u32> },
    Star { id: i64, value: bool },
    Copy { id: i64 },
    Delete { ids: Seq<i64> },
    DeleteAllExceptStarred,
    DeleteItems { ids: Seq<i64> },
    GetSettings,
}

impl View for IpcRequest {
    type V = RequestView;

    open spec fn view(&self) -> RequestView {
        match self {
            IpcRequest::List { limit, starred_only } => RequestView::List {
                limit: *limit,
                starred_only: *starred_only,
            },
            IpcRequest::Search { query, limit } => RequestView::Search {
                query: query@,
                limit: *limit,
            },
            IpcRequest::Gallery { limit } => RequestView::Gallery { limit: *limit },
            IpcRequest::Star { id, value } => RequestView::Star { id: *id, value: *value },
            IpcRequest::Copy { id } => RequestView::Copy { id: *id },
            IpcRequest::Delete { ids } => RequestView::Delete { ids: ids@ },
            IpcRequest::DeleteAllExceptStarred => RequestView::DeleteAllExceptStarred,
            IpcRequest::DeleteItems { ids } => RequestView::DeleteItems { ids: ids@ },
            IpcRequest::GetSettings => RequestView::GetSettings,
        }
    }
}

/// Why a JSON value is no request.
#[derive(Debug, Clone, Copy, PartialEq, Eq, Structural)]
pub enum RequestError {
    /// The line is no JSON.
    InvalidJson,
    /// The value is not an object.
    NotAnObject,
    /// The object has no member `cmd`.
    MissingCmd,
    /// The member `cmd` is not a string.
    CmdNotText,
    /// A search without a `query` string.
    SearchRequiresQuery,
    /// A star command without an integer `id`.
    StarRequiresId,
    /// A star command without a boolean `value`.
    StarRequiresValue,
    /// A copy command without an integer `id`.
    CopyRequiresId,
    /// A delete command without `ids`.
    DeleteRequiresIds,
    /// A delete-items command without `ids`.
    DeleteItemsRequiresIds,
    /// `ids` is not an array.
    IdsNotArray,
    /// `ids` is an empty array.
    IdsEmpty,
    /// `ids` of a delete command holds something that is no integer.
    IdsNotOnlyIntegers,
    /// `ids` of a delete-items command holds something that is no integer.
    IdsNotIntegers,
    /// The command is not known.
    UnknownCmd,
}

/// The response envelope: `ok` with data, or not `ok` with an error text.
#[derive(Debug)]
pub struct IpcResponse<T> {
    pub ok: bool,
    pub data: Option<T>,
    pub error: Option<String>,
}

impl<T> IpcResponse<T> {
    /// A response that carries a result.
    pub fn ok(data: T) -> (response: Self)
        ensures
            response.ok,
            response.data == Some(data),
            response.error is None,
    {
        Self { ok: true, data: Some(data), error: None }
    }

    /// A response that carries an error text.
    pub fn err(msg: String) -> (response: Self)
        ensures
            !response.ok,
            response.data is None,
            response.error == Some(msg),
    {
        Self { ok: false, data: None, error: Some(msg) }
    }
}

/// The field called `key` of a request: the member of the object under
/// `args` where that is an object and has one, else the member of the
/// request itself.
pub open spec fn field(request: JsonValue, key: Seq<char>) -> Option<JsonValue> {
    let inner = match member(request, "args"@) {
        Some(args) => member(args, key),
        None => None,
    };
    if inner is Some {
        inner
    } else {
        member(request, key)
    }
}

/// The `limit` of a request: the field `limit` where it is an unsigned
/// integer, reduced to 32 bits.
pub open spec fn limit_of(request: JsonValue) -> Option<u32> {
    match field(request, "limit"@) {
        Some(value) => match as_u64(value) {
            Some(n) => Some((n % 0x1_0000_0000) as u32),
            None => None,
        },
        None => None,
    }
}

/// The integer field called `key`, if the request has one.
pub open spec fn int_field(request: JsonValue, key: Seq<char>) -> Option<i64> {
    match field(request, key) {
        Some(value) => as_i64(value),
        None => None,
    }
}

/// The boolean field called `key`, if the request has one.
pub open spec fn bool_field(request: JsonValue, key: Seq<char>) -> Option<bool> {
    match field(request, key) {
        Some(value) => as_bool(value),
        None => None,
    }
}

/// The string field called `key`, if the request has one.
pub open spec fn text_field(request: JsonValue, key: Seq<char>) -> Option<Seq<char>> {
    match field(request, key) {
        Some(value) => as_text(value),
        None => None,
    }
}

/// Whether every element is an integer.
pub open spec fn all_ints(elements: Seq<JsonValue>) -> bool {
    forall|i: int| 0 <= i < elements.len() ==> as_i64(#[trigger] elements[i]) is Some
}

/// The elements as integers; meaningful where `all_ints` holds.
pub open spec fn ints_of(elements: Seq<JsonValue>) -> Seq<i64> {
    Seq::new(elements.len(), |i: int| as_i64(elements[i])->0)
}

/// The ids of a delete command: a non-empty array of integers.
pub open spec fn ids_for_delete(request: JsonValue) -> Result<Seq<i64>, RequestError> {
    match field(request, "ids"@) {
        None => Err(RequestError::DeleteRequiresIds),
        Some(value) => match as_array(value) {
            None => Err(RequestError::IdsNotArray),
            Some(elements) => if elements.len() == 0 {
                Err(RequestError::IdsEmpty)
            } else if !all_ints(elements) {
                Err(RequestError::IdsNotOnlyIntegers)
            } else {
                Ok(ints_of(elements))
            },
        },
    }
}

/// The ids of a delete-items command: an array of integers.
pub open spec fn ids_for_delete_items(request: JsonValue) -> Result<Seq<i64>, RequestError> {
    match field(request, "ids"@) {
        None => Err(RequestError::DeleteItemsRequiresIds),
        Some(value) => match as_array(value) {
            None => Err(RequestError::IdsNotArray),
            Some(elements) => if !all_ints(elements) {
                Err(RequestError::IdsNotIntegers)
            } else {
                Ok(ints_of(elements))
            },
        },
    }
}

/// The request that a command name and the fields of a JSON value make, or
/// why they make none.
pub open spec fn parsed_command(cmd: Seq<char>, request: JsonValue) -> Result<
    RequestView,
    RequestError,
> {
    if cmd == "list"@ {
        Ok(
            RequestView::List {
                limit: limit_of(request),
                starred_only: match bool_field(request, "starred_only"@) {
                    Some(b) => b,
                    None => false,
                },
            },
        )
    } else if cmd == "search"@ {
        match text_field(request, "query"@) {
            Some(query) => Ok(RequestView::Search { query, limit: limit_of(request) }),
            None => Err(RequestError::SearchRequiresQuery),
        }
    } else if cmd == "gallery"@ {
        Ok(RequestView::Gallery { limit: limit_of(request) })
    } else if cmd == "star"@ {
        match int_field(request, "id"@) {
            None => Err(RequestError::StarRequiresId),
            Some(id) => match bool_field(request, "value"@) {
                None => Err(RequestError::StarRequiresValue),
                Some(value) => Ok(RequestView::Star { id, value }),
            },
        }
    } else if cmd == "copy"@ {
        match int_field(request, "id"@) {
            None => Err(RequestError::CopyRequiresId),
            Some(id) => Ok(RequestView::Copy { id }),
        }
    } else if cmd == "delete"@ {
        match ids_for_delete(request) {
            Ok(ids) => Ok(RequestView::Delete { ids }),
            Err(error) => Err(error),
        }
    } else if cmd == "delete_all_except_starred"@ {
        Ok(RequestView::DeleteAllExceptStarred)
    } else if cmd == "delete_items"@ {
        match ids_for_delete_items(request) {
            Ok(ids) => Ok(RequestView::DeleteItems { ids }),
            Err(error) => Err(error),
        }
    } else if cmd == "get_settings"@ {
        Ok(RequestView::GetSettings)
    } else {
        Err(RequestError::UnknownCmd)
    }
}

/// Whether `result` is the outcome `expected`, the request taken by its
/// view.
pub open spec fn is_outcome(
    result: Result<IpcRequest, RequestError>,
    expected: Result<RequestView, RequestError>,
) -> bool {
    match result {
        Ok(request) => expected == Ok::<RequestView, RequestError>(request@),
        Err(error) => expected == Err::<RequestView, RequestError>(error),
    }
}

fn lookup<'a>(request: &'a JsonValue, key: &str) -> (found: Option<&'a JsonValue>)
    ensures
        match found {
            Some(value) => field(*request, key@) == Some(*value),
            None => field(*request, key@) is None,
        },
{
    if let Some(args) = request.get("args") {
        if let Some(value) = args.get(key) {
            return Some(value);
        }
    }
    request.get(key)
}

fn read_limit(request: &JsonValue) -> (limit: Option<u32>)
    ensures
        limit == limit_of(*request),
{
    match lookup(request, "limit") {
        Some(value) => match value.to_u64() {
            Some(n) => Some((n % 0x1_0000_0000) as u32),
            None => None,
        },
        None => None,
    }
}

fn read_int(request: &JsonValue, key: &str) -> (n: Option<i64>)
    ensures
        n == int_field(*request, key@),
{
    match lookup(request, key) {
        Some(value) => value.to_i64(),
        None => None,
    }
}

fn read_bool(request: &JsonValue, key: &str) -> (b: Option<bool>)
    ensures
        b == bool_field(*request, key@),
{
    match lookup(request, key) {
        Some(value) => value.to_bool(),
        None => None,
    }
}

/// The elements as integers, where each of them is one.
fn read_ints(elements: &Vec<JsonValue>) -> (ids: Option<Vec<i64>>)
    ensures
        ids is Some <==> all_ints(elements@),
        ids matches Some(list) ==> list@ == ints_of(elements@),
{
    let mut ids: Vec<i64> = Vec::new();
    let mut i: usize = 0;
    while i < elements.len()
        invariant
            i <= elements.len(),
            ids@.len() == i,
            forall|j: int| 0 <= j < i ==> as_i64(#[trigger] elements@[j]) == Some(ids@[j]),
        decreases elements.len() - i,
    {
        match elements[i].to_i64() {
            Some(id) => ids.push(id),
            None => {
                return None;
            },
        }
        i += 1;
    }
    Some(ids)
}

/// Reads the request that the command called `cmd` makes of the fields of
/// `request`. `cmd` is the command name in lower case.
pub fn parse_command(cmd: &str, request: &JsonValue) -> (result: Result<IpcRequest, RequestError>)
    ensures
        is_outcome(result, parsed_command(cmd@, *request)),
{
    if str_eq(cmd, "list") {
        let limit = read_limit(request);
        let starred_only = match read_bool(request, "starred_only") {
            Some(b) => b,
            None => false,
        };
        Ok(IpcRequest::List { limit, starred_only })
    } else if str_eq(cmd, "search") {
        let query = match lookup(request, "query") {
            Some(value) => value.to_text(),
            None => None,
        };
        match query {
            Some(text) => Ok(
                IpcRequest::Search { query: text.to_owned(), limit: read_limit(request) },
            ),
            None => Err(RequestError::SearchRequiresQuery),
        }
    } else if str_eq(cmd, "gallery") {
        Ok(IpcRequest::Gallery { limit: read_limit(request) })
    } else if str_eq(cmd, "star") {
        match read_int(request, "id") {
            None => Err(RequestError::StarRequiresId),
            Some(id) => match read_bool(request, "value") {
                None => Err(RequestError::StarRequiresValue),
                Some(value) => Ok(IpcRequest::Star { id, value }),
            },
        }
    } else if str_eq(cmd, "copy") {
        match read_int(request, "id") {
            None => Err(RequestError::CopyRequiresId),
            Some(id) => Ok(IpcRequest::Copy { id }),
        }
    } else if str_eq(cmd, "delete") {
        match lookup(request, "ids") {
            None => Err(RequestError::DeleteRequiresIds),
            Some(value) => match value.to_array() {
                None => Err(RequestError::IdsNotArray),
                Some(elements) => {
                    if elements.len() == 0 {
                        Err(RequestError::IdsEmpty)
                    } else {
                        match read_ints(elements) {
                            Some(ids) => Ok(IpcRequest::Delete { ids }),
                            None => Err(RequestError::IdsNotOnlyIntegers),
                        }
                    }
                },
            },
        }
    } else if str_eq(cmd, "delete_all_except_starred") {
        Ok(IpcRequest::DeleteAllExceptStarred)
    } else if str_eq(cmd, "delete_items") {
        match lookup(request, "ids") {
            None => Err(RequestError::DeleteItemsRequiresIds),
            Some(value) => match value.to_array() {
                None => Err(RequestError::IdsNotArray),
                Some(elements) => match read_ints(elements) {
                    Some(ids) => Ok(IpcRequest::DeleteItems { ids }),
                    None => Err(RequestError::IdsNotIntegers),
                },
            },
        }
    } else if str_eq(cmd, "get_settings") {
        Ok(IpcRequest::GetSettings)
    } else {
        Err(RequestError::UnknownCmd)
    }
}

/// The lower-case form of a text, as `str::to_lowercase` gives it.
pub uninterp spec fn unicode_lower(text: Seq<char>) -> Seq<char>;

/// Calls `str::to_lowercase`.
/// Trusted: the result depends on the text alone.
#[verifier::external_body]
fn to_lowercase(text: &str) -> (lower: String)
    ensures
        lower@ == unicode_lower(text@),
{
    text.to_lowercase()
}

/// The command name of a request in lower case; empty where the request
/// names no command.
pub open spec fn lowered_cmd(request: JsonValue) -> Seq<char> {
    match member(request, "cmd"@) {
        Some(cmd) => match as_text(cmd) {
            Some(text) => unicode_lower(text),
            None => Seq::empty(),
        },
        None => Seq::empty(),
    }
}

/// The request that a JSON value makes, or why it makes none. The value
/// must be an object with a string member `cmd`, which names the command
/// in any mix of upper and lower case.
pub open spec fn parsed_request(request: JsonValue) -> Result<RequestView, RequestError> {
    if !(request is Object) {
        Err(RequestError::NotAnObject)
    } else {
        match member(request, "cmd"@) {
            None => Err(RequestError::MissingCmd),
            Some(cmd) => match as_text(cmd) {
                None => Err(RequestError::CmdNotText),
                Some(text) => parsed_command(unicode_lower(text), request),
            },
        }
    }
}

/// The text that tells a client why its request was refused.
pub open spec fn error_text(error: RequestError, cmd: Seq<char>) -> Seq<char> {
    match error {
        RequestError::InvalidJson => "invalid json"@,
        RequestError::NotAnObject => "request must be a JSON object"@,
        RequestError::MissingCmd => "missing cmd"@,
        RequestError::CmdNotText => "cmd must be a string"@,
        RequestError::SearchRequiresQuery => "search requires query"@,
        RequestError::StarRequiresId => "star requires id"@,
        RequestError::StarRequiresValue => "star requires value"@,
        RequestError::CopyRequiresId => "copy requires id"@,
        RequestError::DeleteRequiresIds => "delete requires ids"@,
        RequestError::DeleteItemsRequiresIds => "delete_items requires ids array"@,
        RequestError::IdsNotArray => "ids must be an array"@,
        RequestError::IdsEmpty => "ids array cannot be empty"@,
        RequestError::IdsNotOnlyIntegers => "ids must contain only integers"@,
        RequestError::IdsNotIntegers => "ids must contain integers"@,
        RequestError::UnknownCmd => "unknown cmd: "@ + cmd,
    }
}

/// A refused request: the reason, and the text for the client.
#[derive(Debug)]
pub struct Rejection {
    pub error: RequestError,
    pub message: String,
}

impl Rejection {
    /// The error text of the response to a refused line.
    pub open spec fn response_text_of(&self) -> Seq<char> {
        "invalid json: "@ + self.message@
    }

    /// The error text of the response to a refused line: `invalid json: `
    /// and the reason.
    pub fn response_text(&self) -> (text: String)
        ensures
            text@ == self.response_text_of(),
    {
        let mut text = "invalid json: ".to_owned();
        text.append(self.message.as_str());
        text
    }
}

/// The text that tells a client why its request was refused; `cmd` is the
/// command name in lower case, which an unknown command is reported with.
pub fn error_message(error: RequestError, cmd: &str) -> (message: String)
    ensures
        message@ == error_text(error, cmd@),
{
    match error {
        RequestError::InvalidJson => "invalid json".to_owned(),
        RequestError::NotAnObject => "request must be a JSON object".to_owned(),
        RequestError::MissingCmd => "missing cmd".to_owned(),
        RequestError::CmdNotText => "cmd must be a string".to_owned(),
        RequestError::SearchRequiresQuery => "search requires query".to_owned(),
        RequestError::StarRequiresId => "star requires id".to_owned(),
        RequestError::StarRequiresValue => "star requires value".to_owned(),
        RequestError::CopyRequiresId => "copy requires id".to_owned(),
        RequestError::DeleteRequiresIds => "delete requires ids".to_owned(),
        RequestError::DeleteItemsRequiresIds => "delete_items requires ids array".to_owned(),
        RequestError::IdsNotArray => "ids must be an array".to_owned(),
        RequestError::IdsEmpty => "ids array cannot be empty".to_owned(),
        RequestError::IdsNotOnlyIntegers => "ids must contain only integers".to_owned(),
        RequestError::IdsNotIntegers => "ids must contain integers".to_owned(),
        RequestError::UnknownCmd => {
            let mut message = "unknown cmd: ".to_owned();
            message.append(cmd);
            message
        },
    }
}

/// Reads a request from a JSON value. Fields may stand in the request
/// itself or in an object under `args`, which is looked at first.
pub fn read_request(request: &JsonValue) -> (result: Result<IpcRequest, Rejection>)
    ensures
        is_reading(result, *request),
{
    let is_object = match request {
        JsonValue::Object(_) => true,
        _ => false,
    };
    if !is_object {
        let error = RequestError::NotAnObject;
        return Err(Rejection { error, message: error_message(error, "") });
    }
    let cmd_value = match request.get("cmd") {
        Some(value) => value,
        None => {
            let error = RequestError::MissingCmd;
            return Err(Rejection { error, message: error_message(error, "") });
        },
    };
    let cmd_text = match cmd_value.to_text() {
        Some(text) => text,
        None => {
            let error = RequestError::CmdNotText;
            return Err(Rejection { error, message: error_message(error, "") });
        },
    };
    let cmd = to_lowercase(cmd_text);
    match parse_command(cmd.as_str(), request) {
        Ok(parsed) => Ok(parsed),
        Err(error) => Err(Rejection { error, message: error_message(error, cmd.as_str()) }),
    }
}

/// Whether `result` is what reading the JSON value `request` gives.
pub open spec fn is_reading(result: Result<IpcRequest, Rejection>, request: JsonValue) -> bool {
    match result {
        Ok(parsed) => parsed_request(request) == Ok::<RequestView, RequestError>(parsed@),
        Err(rejection) => parsed_request(request) == Err::<RequestView, RequestError>(
            rejection.error,
        ) && rejection.message@ == error_text(rejection.error, lowered_cmd(request)),
    }
}

/// Reads a request from one line of text: the line is read as JSON, and the
/// JSON value as a request. A line that is no JSON is refused as invalid
/// JSON, with the text that the JSON reader gives.
pub fn parse_request(line: &str) -> (result: Result<IpcRequest, Rejection>)
    ensures
        match json_of(line@) {
            Some(request) => is_reading(result, request),
            None => result matches Err(rejection) && rejection.error == RequestError::InvalidJson,
        },
{
    match decode(line) {
        Ok(request) => read_request(&request),
        Err(message) => Err(Rejection { error: RequestError::InvalidJson, message }),
    }
}

} // verus!
