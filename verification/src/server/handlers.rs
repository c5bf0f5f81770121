//! The decisions of the request handlers: which error answers which failure, the field a
//! validation failure points at, the page of a list, the answer to a route outside the
//! contract, and the origins let through by CORS.

use vstd::prelude::*;
use vstd::string::*;
use crate::common::{ListParams, PaginationMeta};
use crate::entities::{Project, ProjectList};
use crate::error::{ErrorCode, ErrorEnvelope};
use crate::ids::{NoteId, is_id_of, id_parse_error_text};
use crate::server::api_error::ApiError;
use crate::text::{
    chars_of, find_pattern, first_occurrence, lemma_first_occurrence, occurs_at, starts_with, str_eq, string_of_range,
    trim_end_char, trim_end_position,
};

verus! {

broadcast use vstd::string::group_string_axioms;

/// The message of an invalid request body.
pub const BODY_INVALID: &'static str = "请求体校验失败";

/// The message of invalid query parameters.
pub const QUERY_INVALID: &'static str = "查询参数校验失败";

/// The marker of a missing-field deserialization error.
pub open spec fn missing_field_marker() -> Seq<char> {
    "missing field `"@
}

/// The field named by a `missing field `x`` message (empty when the message has no marker):
/// the text after the first marker, without its trailing backquotes.
pub open spec fn missing_field_name(msg: Seq<char>) -> Seq<char> {
    match first_occurrence(msg, missing_field_marker()) {
        Some(i) => trim_end_char(msg.subrange(i + missing_field_marker().len(), msg.len() as int), '`'),
        None => Seq::empty(),
    }
}

/// Extracts the field name from a `missing field `x`` deserialization message.
pub fn extract_field(msg: &str) -> (r: String)
    ensures
        r@ == missing_field_name(msg@),
{
    let v = chars_of(msg);
    let marker = chars_of("missing field `");
    match find_pattern(&v, &marker) {
        Some(i) => {
            let from = i + marker.len();
            let end = trim_end_position(&v, '`', from, v.len());
            string_of_range(&v, from, end)
        },
        None => String::new(),
    }
}

/// The field named in a missing-field message is read back: after any text that does not
/// hold the marker, `missing field `name`` names `name` (for a name that does not end in a
/// backquote).
pub proof fn law_missing_field_read_back(pre: Seq<char>, name: Seq<char>)
    requires
        forall|j: int|
            0 <= j < pre.len() ==> !occurs_at(pre + missing_field_marker(), missing_field_marker(), j),
        name.len() == 0 || name.last() != '`',
    ensures
        missing_field_name(pre + missing_field_marker() + name + "`"@) == name,
{
    reveal_strlit("`");
    let mk = missing_field_marker();
    let pm = pre + mk;
    let msg = pre + mk + name + "`"@;
    assert forall|j: int| 0 <= j < pre.len() implies !occurs_at(msg, mk, j) by {
        if occurs_at(msg, mk, j) {
            assert(msg.subrange(j, j + mk.len()) =~= pm.subrange(j, j + mk.len()));
            assert(occurs_at(pm, mk, j));
        }
    }
    assert(msg.subrange(pre.len() as int, (pre.len() + mk.len()) as int) =~= mk);
    assert(occurs_at(msg, mk, pre.len() as int));
    lemma_first_occurrence(msg, mk, Some(pre.len() as int));
    let rest = msg.subrange((pre.len() + mk.len()) as int, msg.len() as int);
    assert(rest =~= name.push('`'));
    assert(rest.drop_last() =~= name);
    assert(trim_end_char(rest, '`') == trim_end_char(name, '`'));
}

/// The field a body validation failure points at: the error's path, or (when the path is
/// empty or `.`, as for a missing top-level field) the field named in the message.
pub open spec fn body_error_field(path: Seq<char>, msg: Seq<char>) -> Seq<char> {
    if path.len() == 0 || path == "."@ {
        missing_field_name(msg)
    } else {
        path
    }
}

/// The 422 of an invalid note body: the deserializer's path and message.
pub fn body_validation_error(path: &str, msg: &str) -> (e: ApiError)
    ensures
        e matches ApiError::Validation(m, d) && m@ == BODY_INVALID@ && d.len() == 1
            && d[0].field@ == body_error_field(path@, msg@) && d[0].message@ == msg@,
{
    let field = if path.is_empty() || str_eq(path, ".") {
        extract_field(msg)
    } else {
        path.to_owned()
    };
    ApiError::validation(BODY_INVALID, field, msg.to_owned())
}

/// The 422 of invalid search parameters: the field named in the message, if any.
pub fn search_validation_error(msg: &str) -> (e: ApiError)
    ensures
        e matches ApiError::Validation(m, d) && m@ == QUERY_INVALID@ && d.len() == 1
            && d[0].field@ == missing_field_name(msg@) && d[0].message@ == msg@,
{
    ApiError::validation(QUERY_INVALID, extract_field(msg), msg.to_owned())
}

/// The 422 of invalid list parameters (no field).
pub fn list_validation_error(msg: &str) -> (e: ApiError)
    ensures
        e matches ApiError::Validation(m, d) && m@ == QUERY_INVALID@ && d.len() == 1
            && d[0].field@ == Seq::<char>::empty() && d[0].message@ == msg@,
{
    ApiError::validation(QUERY_INVALID, String::new(), msg.to_owned())
}

/// The message of a missing note.
pub open spec fn note_missing_text(id: Seq<char>) -> Seq<char> {
    "笔记不存在："@ + id
}

/// The message of a missing project.
pub open spec fn project_missing_text(id: Seq<char>) -> Seq<char> {
    "项目不存在："@ + id
}

/// The 404 of a missing note.
pub fn note_not_found(id: &str) -> (e: ApiError)
    ensures
        e matches ApiError::NotFound(m) && m@ == note_missing_text(id@),
{
    let mut m = "笔记不存在：".to_owned();
    m.append(id);
    ApiError::NotFound(m)
}

/// The 404 of a missing project.
pub fn project_not_found(id: &str) -> (e: ApiError)
    ensures
        e matches ApiError::NotFound(m) && m@ == project_missing_text(id@),
{
    let mut m = "项目不存在：".to_owned();
    m.append(id);
    ApiError::NotFound(m)
}

/// The id of a note to read: an id that cannot exist is answered like a missing note.
pub fn note_id_for_read(raw: &str) -> (r: Result<NoteId, ApiError>)
    ensures
        r is Ok <==> is_id_of("itm"@, raw@),
        r matches Ok(id) ==> id@ == raw@,
        r matches Err(e) ==> e matches ApiError::NotFound(m) && m@ == note_missing_text(raw@),
{
    match NoteId::parse(raw) {
        Ok(id) => Ok(id),
        Err(_) => Err(note_not_found(raw)),
    }
}

/// The message of a route outside the contract.
pub open spec fn route_missing_text(method: Seq<char>, path: Seq<char>) -> Seq<char> {
    "契约外路由："@ + method + " "@ + path
}

/// The 404 envelope of a route outside the contract.
pub fn fallback_envelope(method: &str, path: &str) -> (e: ErrorEnvelope)
    ensures
        e.code == ErrorCode::NotFound,
        e.message@ == route_missing_text(method@, path@),
        e.detail is None,
{
    let mut m = "契约外路由：".to_owned();
    m.append(method);
    m.append(" ");
    m.append(path);
    ErrorEnvelope::new(ErrorCode::NotFound, m.as_str())
}

/// Origins let through by CORS: the local dev servers.
pub open spec fn origin_allowed(origin: Seq<char>) -> bool {
    ||| origin.len() >= "http://localhost:"@.len() && origin.subrange(0, "http://localhost:"@.len() as int) == "http://localhost:"@
    ||| origin.len() >= "http://127.0.0.1:"@.len() && origin.subrange(0, "http://127.0.0.1:"@.len() as int) == "http://127.0.0.1:"@
}

/// Whether CORS lets an origin through.
pub fn is_allowed_origin(origin: &str) -> (r: bool)
    ensures
        r == origin_allowed(origin@),
{
    starts_with(origin, "http://localhost:") || starts_with(origin, "http://127.0.0.1:")
}

/// The page of the project list: the page size (50 when left out) and the offset (0).
pub fn project_page(params: &ListParams) -> (r: (u32, u32))
    ensures
        r == params.page_of(),
{
    params.page()
}

/// The project list envelope.
pub fn project_list(items: Vec<Project>, total: u64, limit: u32, offset: u32) -> (r: ProjectList)
    ensures
        r.items == items,
        r.page == (PaginationMeta { total, limit, offset }),
{
    ProjectList { items, page: PaginationMeta { total, limit, offset } }
}

} // verus!
