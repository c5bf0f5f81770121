use jotline::common::{ListParams, Timestamp, DEFAULT_LIST_LIMIT};
use jotline::error::{ErrorCode, ErrorEnvelope, FieldError};
use jotline::ids::NoteId;
use jotline::ipc::{IpcHealthRequest, IpcHealthResponse, JSONRPC_VERSION, METHOD_HEALTH_PING};
use jotline::tools::{tools, ToolParams};

#[test]
fn error_codes_snake_case_and_status() {
    assert_eq!(ErrorEnvelope::new(ErrorCode::Unauthorized, "x").status(), 401);
    assert_eq!(ErrorEnvelope::new(ErrorCode::NotFound, "x").status(), 404);
    assert_eq!(ErrorEnvelope::new(ErrorCode::Conflict, "x").status(), 409);
    assert_eq!(ErrorEnvelope::new(ErrorCode::ValidationFailed, "x").status(), 422);
    assert_eq!(ErrorEnvelope::new(ErrorCode::Internal, "x").status(), 500);
}

#[test]
fn optional_detail_omitted() {
    let e = ErrorEnvelope::new(ErrorCode::NotFound, "笔记不存在");
    assert!(e.detail.is_none());
    assert_eq!(e.message, "笔记不存在");
    let e2 = ErrorEnvelope::validation(
        "请求体校验失败",
        vec![FieldError { field: "title".to_string(), message: "不能为空".to_string() }],
    );
    let d = e2.detail.unwrap();
    assert_eq!(d.len(), 1);
    assert_eq!(d[0].field, "title");
    assert_eq!(e2.code, ErrorCode::ValidationFailed);
}

#[test]
fn validation_without_detail_leaves_it_out() {
    let e = ErrorEnvelope::validation("查询参数校验失败", Vec::new());
    assert!(e.detail.is_none());
    assert_eq!(e.status(), 422);
}

#[test]
fn health_ping_pong_same_id() {
    let req = IpcHealthRequest::new("ping-1");
    assert_eq!(req.jsonrpc, "2.0");
    assert_eq!(req.method, "health.ping");
    let resp = IpcHealthResponse::pong(&req);
    assert_eq!(resp.id, "ping-1");
    assert_eq!(resp.result.status, "ok");
    assert_eq!(resp.jsonrpc, JSONRPC_VERSION);
    assert_eq!(req.method, METHOD_HEALTH_PING);
}

#[test]
fn timestamp_serializes_rfc3339_utc() {
    let t = Timestamp::parse_rfc3339("2025-06-12T06:32:00Z").unwrap();
    assert_eq!(t.to_rfc3339(), "2025-06-12T06:32:00Z");
    let t2 = Timestamp::parse_rfc3339("2025-06-12T14:32:00+08:00").unwrap();
    assert_eq!(t2.to_rfc3339(), "2025-06-12T06:32:00Z");
    assert_eq!(t, t2);
}

#[test]
fn timestamp_parts_and_storage_key() {
    let t = Timestamp::parse_rfc3339("2025-06-12T06:32:00.5Z").unwrap();
    assert_eq!(t.unix_seconds(), 1749709920);
    assert_eq!(t.subsec_nanos(), 500_000_000);
    assert_eq!(t.to_rfc3339(), "2025-06-12T06:32:00.500Z");
    assert_eq!(t.storage_key(), "2025-06-12T06:32:00.500000000Z");
    let u = Timestamp::from_unix(1749709920, 500_000_000).unwrap();
    assert_eq!(u, t);
    assert!(Timestamp::from_unix(i64::MAX, 0).is_none());
}

#[test]
fn timestamp_refuses_non_rfc3339_text() {
    let e = Timestamp::parse_rfc3339("yesterday").unwrap_err();
    assert!(e.starts_with("非法 RFC 3339 时间："));
    assert!(Timestamp::parse_rfc3339("").is_err());
}

#[test]
fn timestamp_now_is_representable() {
    let t = Timestamp::now().unwrap();
    assert!(Timestamp::from_unix(t.unix_seconds(), t.subsec_nanos()).is_some());
    assert!(t.to_rfc3339().ends_with('Z'));
}

#[test]
fn clock_readings_before_and_after_the_epoch() {
    let after = Timestamp::from_clock(Ok((1_749_709_920, 5))).unwrap();
    assert_eq!((after.unix_seconds(), after.subsec_nanos()), (1_749_709_920, 5));
    let before = Timestamp::from_clock(Err((10, 250_000_000))).unwrap();
    assert_eq!((before.unix_seconds(), before.subsec_nanos()), (-11, 750_000_000));
    let whole = Timestamp::from_clock(Err((10, 0))).unwrap();
    assert_eq!((whole.unix_seconds(), whole.subsec_nanos()), (-10, 0));
    assert_eq!(whole.to_rfc3339(), "1969-12-31T23:59:50Z");
    assert!(Timestamp::from_clock(Ok((u64::MAX, 0))).is_none());
    assert!(Timestamp::from_clock(Err((u64::MAX, 1))).is_none());
}

#[test]
fn serde_validates_on_deserialize() {
    let ok: NoteId = "itm_01J8Z3A7B4C5D6E7F8G9H0JKMN".parse().unwrap();
    assert_eq!(ok.as_str(), "itm_01J8Z3A7B4C5D6E7F8G9H0JKMN");
    assert!("itm_bogus".parse::<NoteId>().is_err());
}

#[test]
fn list_params_defaults() {
    assert_eq!(ListParams::default().page(), (DEFAULT_LIST_LIMIT, 0));
    assert_eq!(ListParams { limit: Some(5), offset: None }.page(), (5, 0));
    assert_eq!(ListParams { limit: None, offset: Some(7) }.page(), (50, 7));
}

#[test]
fn tool_registry_names_and_order() {
    let t = tools();
    assert_eq!(t.len(), 3);
    assert_eq!(t[0].name, "list_projects");
    assert_eq!(t[0].params, ToolParams::Empty);
    assert_eq!(t[1].name, "create_note");
    assert_eq!(t[1].params, ToolParams::CreateNote);
    assert_eq!(t[2].name, "search_content");
    assert_eq!(t[2].params, ToolParams::Search);
    assert!(t[2].description.contains("snippet"));
}

#[test]
fn timestamp_texts_read_back() {
    for (secs, nanos) in [(0_i64, 0_u32), (1749709920, 123_456_789), (-62135596800, 0), (253402300799, 999_999_999)] {
        let t = Timestamp::from_unix(secs, nanos).unwrap();
        assert_eq!(Timestamp::parse_rfc3339(&t.to_rfc3339()).unwrap(), t);
        assert_eq!(Timestamp::parse_rfc3339(&t.storage_key()).unwrap(), t);
    }
}
