use jotline::common::{ListParams, Provenance, ProvenanceSource, Timestamp};
use jotline::error::ErrorCode;
use jotline::ids::{NoteId, ProjectId};
use jotline::notes::{CreateNoteRequest, NoteFormat, SearchQuery};
use jotline::server::api_error::ApiError;
use jotline::server::auth::{authorize, is_sidecar_boot, query_token, record_boot, unauthorized_envelope, STREAM_PATH};
use jotline::server::config::{
    parse_u16, repo_root, repo_root_candidate, ServerConfig, DEFAULT_DATA_DIR, DEFAULT_PORT, DEFAULT_TOKEN,
};
use jotline::server::handlers::{
    body_validation_error, extract_field, fallback_envelope, is_allowed_origin, list_validation_error,
    note_id_for_read, note_not_found, project_list, project_not_found, project_page,
    search_validation_error, BODY_INVALID, QUERY_INVALID,
};
use jotline::server::sidecar::{
    boot_event_allowed, boot_start, boot_step, log_level, sidecar_launch, BootAction, BootEvent, BootState, LogLevel,
    BOOT_PING_ID,
};
use jotline::server::storage::{
    build_note, build_search_sql, create_start, create_step, event_answers, fts_phrase, needs_migration, needs_seed,
    new_note_id, note_from_row, note_index_row, prepare_note, project_from_row, vault_subdirs, CreateAction,
    CreateEvent, CreateOutcome, CreateState, NoteRow, ProjectRow, SqlValue, SEED_PROJECT_ID,
};
use jotline::stream::{EventSequence, StreamEnvelope};

const SEARCH_HEAD: &str = "SELECT i.id, i.title, i.provenance,
                    snippet(items_fts, 1, '', '', '…', 16) AS snippet,
                    -bm25(items_fts) AS score
             FROM items_fts JOIN items i ON i.rowid = items_fts.rowid
             WHERE items_fts MATCH ?";

fn request() -> CreateNoteRequest {
    CreateNoteRequest {
        project_id: ProjectId::parse(SEED_PROJECT_ID).unwrap(),
        title: "切片验证".to_string(),
        body: "hello jotline".to_string(),
        target_dir: None,
        tags: None,
        format: None,
    }
}

fn note_row() -> NoteRow {
    NoteRow {
        id: "itm_01J8Z3A7B4C5D6E7F8G9H0JKMN".to_string(),
        project_id: SEED_PROJECT_ID.to_string(),
        title: "t".to_string(),
        body: "b".to_string(),
        target_dir: Some("notes".to_string()),
        format: "markdown".to_string(),
        tags: "[\"uat\"]".to_string(),
        provenance: Ok(Provenance { source: ProvenanceSource::Manual, origin: "manual".to_string(), imported: false }),
        created_at: "2025-06-12T06:32:00.000000000Z".to_string(),
        updated_at: "2025-06-12T06:32:00.000000000Z".to_string(),
    }
}

// --- auth -------------------------------------------------------------------

#[test]
fn query_token_takes_first_token_pair() {
    assert_eq!(query_token("token=dev-token"), Some("dev-token"));
    assert_eq!(query_token("a=1&token=x&token=y"), Some("x"));
    assert_eq!(query_token("tokens=1&token="), Some(""));
    assert_eq!(query_token("token"), None);
    assert_eq!(query_token(""), None);
    assert_eq!(query_token("a=token=1"), None);
}

#[test]
fn authorize_refuses_missing_and_wrong_token() {
    assert!(authorize("dev-token", Some("Bearer dev-token"), "/api/projects", None));
    assert!(!authorize("dev-token", None, "/api/projects", None));
    assert!(!authorize("dev-token", Some("Bearer wrong"), "/api/projects", None));
    assert!(!authorize("dev-token", Some("dev-token"), "/api/projects", None));
    let e = unauthorized_envelope();
    assert_eq!(e.code, ErrorCode::Unauthorized);
    assert_eq!(e.status(), 401);
}

#[test]
fn stream_accepts_query_token_only_on_its_path() {
    assert!(authorize("dev-token", None, STREAM_PATH, Some("token=dev-token")));
    assert!(!authorize("dev-token", None, STREAM_PATH, Some("token=wrong")));
    assert!(!authorize("dev-token", None, "/api/projects", Some("token=dev-token")));
    assert!(!authorize("dev-token", None, STREAM_PATH, None));
}

#[test]
fn sidecar_header_marks_boot() {
    assert!(is_sidecar_boot(Some("boot")));
    assert!(!is_sidecar_boot(Some("Boot")));
    assert!(!is_sidecar_boot(None));
}

// --- handlers -----------------------------------------------------------------

#[test]
fn boot_flag_is_set_once_and_told_once() {
    assert_eq!(record_boot(false), (true, true));
    assert_eq!(record_boot(true), (true, false));
}

#[test]
fn extract_field_reads_missing_field_messages() {
    assert_eq!(extract_field("missing field `title` at line 1 column 20"), "title` at line 1 column 20");
    assert_eq!(extract_field("missing field `title`"), "title");
    assert_eq!(extract_field("missing field `q``"), "q");
    assert_eq!(extract_field("invalid type: integer"), "");
}

#[test]
fn body_errors_point_at_path_or_missing_field() {
    match body_validation_error(".", "missing field `body`") {
        ApiError::Validation(m, d) => {
            assert_eq!(m, BODY_INVALID);
            assert_eq!(d[0].field, "body");
            assert_eq!(d[0].message, "missing field `body`");
        }
        _ => panic!("expected a validation error"),
    }
    match body_validation_error("title", "invalid type: integer `123`, expected a string") {
        ApiError::Validation(_, d) => assert_eq!(d[0].field, "title"),
        _ => panic!("expected a validation error"),
    }
    match search_validation_error("missing field `q`") {
        ApiError::Validation(m, d) => {
            assert_eq!(m, QUERY_INVALID);
            assert_eq!(d[0].field, "q");
        }
        _ => panic!("expected a validation error"),
    }
    match list_validation_error("invalid digit") {
        ApiError::Validation(_, d) => assert_eq!(d[0].field, ""),
        _ => panic!("expected a validation error"),
    }
}

#[test]
fn api_errors_map_to_status_and_envelope() {
    let (status, e) = note_not_found("itm_x").into_envelope();
    assert_eq!(status, 404);
    assert_eq!(e.message, "笔记不存在：itm_x");
    let (status, e) = project_not_found("prj_x").into_envelope();
    assert_eq!(status, 404);
    assert_eq!(e.message, "项目不存在：prj_x");
    let (status, e) = ApiError::Internal("boom".to_string()).into_envelope();
    assert_eq!((status, e.code), (500, ErrorCode::Internal));
    let (status, e) = body_validation_error("", "missing field `title`").into_envelope();
    assert_eq!((status, e.code), (422, ErrorCode::ValidationFailed));
    assert_eq!(e.detail.unwrap()[0].field, "title");
    let (status, e) = ApiError::Validation("x".to_string(), Vec::new()).into_envelope();
    assert_eq!(status, 422);
    assert!(e.detail.is_none());
}

#[test]
fn note_id_for_read_accepts_ids_and_refuses_others() {
    let id = note_id_for_read("itm_01J8Z3A7B4C5D6E7F8G9H0JKMN").unwrap();
    assert_eq!(id.as_str(), "itm_01J8Z3A7B4C5D6E7F8G9H0JKMN");
    match note_id_for_read("itm_bogus") {
        Err(ApiError::NotFound(m)) => assert_eq!(m, "笔记不存在：itm_bogus"),
        _ => panic!("expected not found"),
    }
}

#[test]
fn fallback_envelope_names_method_and_path() {
    let e = fallback_envelope("GET", "/not-a-contract-route");
    assert_eq!(e.code, ErrorCode::NotFound);
    assert_eq!(e.message, "契约外路由：GET /not-a-contract-route");
    assert_eq!(e.status(), 404);
}

#[test]
fn allowed_origins_are_localhost_only() {
    assert!(is_allowed_origin("http://localhost:1420"));
    assert!(is_allowed_origin("http://127.0.0.1:5173"));
    assert!(!is_allowed_origin("http://evil.example.com"));
    assert!(!is_allowed_origin("http://localhost"));
    assert!(!is_allowed_origin("https://localhost:1420"));
}

#[test]
fn project_page_defaults_and_envelope() {
    assert_eq!(project_page(&ListParams::default()), (50, 0));
    let l = project_list(Vec::new(), 3, 50, 0);
    assert_eq!((l.page.total, l.page.limit, l.page.offset), (3, 50, 0));
    assert!(l.items.is_empty());
}

// --- config and sidecar -------------------------------------------------------

#[test]
fn parse_u16_follows_from_str() {
    assert_eq!(parse_u16("4765"), Some(4765));
    assert_eq!(parse_u16("+80"), Some(80));
    assert_eq!(parse_u16("0065535"), Some(65535));
    assert_eq!(parse_u16("65536"), None);
    assert_eq!(parse_u16("-1"), None);
    assert_eq!(parse_u16(""), None);
    assert_eq!(parse_u16("+"), None);
    assert_eq!(parse_u16(" 80"), None);
}

#[test]
fn config_defaults_apply() {
    let c = ServerConfig::from_vars(None, None, None);
    assert_eq!(c.port, DEFAULT_PORT);
    assert_eq!(c.token, DEFAULT_TOKEN);
    assert_eq!(c.data_dir, DEFAULT_DATA_DIR);
    let c = ServerConfig::from_vars(Some("notaport"), Some("t".to_string()), Some("/tmp/v".to_string()));
    assert_eq!((c.port, c.token.as_str(), c.data_dir.as_str()), (4765, "t", "/tmp/v"));
    assert_eq!(ServerConfig::from_vars(Some("8080"), None, None).port, 8080);
}

#[test]
fn sidecar_launch_passes_port_and_token() {
    let l = sidecar_launch(4765, "dev-token");
    assert_eq!(l.program, "bun");
    assert_eq!(l.args, vec!["run", "sidecar/src/index.ts"]);
    assert_eq!(l.env[0], ("JOTLINE_API_PORT", "4765".to_string()));
    assert_eq!(l.env[1], ("JOTLINE_DEV_TOKEN", "dev-token".to_string()));
    assert_eq!(parse_u16(&l.env[0].1), Some(4765));
}

#[test]
fn boot_sequence_verified_after_pong_and_callback() {
    let (s, a) = boot_start();
    assert_eq!(s, BootState::SendingPing);
    match a {
        BootAction::SendPing(p) => assert_eq!(p.id, BOOT_PING_ID),
        _ => panic!("expected the ping"),
    }
    let (s, a) = boot_step(s, BootEvent::PingSent);
    assert_eq!((s, a), (BootState::AwaitingPong, BootAction::AwaitResponse));
    let (s, a) = boot_step(s, BootEvent::Response("other".to_string()));
    assert_eq!((s, a), (BootState::AwaitingPong, BootAction::AwaitResponse));
    let (s, a) = boot_step(s, BootEvent::Response("boot-1".to_string()));
    assert_eq!((s, a), (BootState::AwaitingCallback, BootAction::AwaitCallback));
    let (s, a) = boot_step(s, BootEvent::CallbackSeen);
    assert_eq!((s, a), (BootState::Done, BootAction::Finish(Ok(()))));
}

#[test]
fn boot_sequence_failures_finish_with_their_step() {
    let (_, a) = boot_step(BootState::SendingPing, BootEvent::StdinMissing);
    assert_eq!(a, BootAction::Finish(Err("stdin 不可用")));
    let (_, a) = boot_step(BootState::SendingPing, BootEvent::PingWriteFailed);
    assert_eq!(a, BootAction::Finish(Err("ping 写入失败")));
    let (_, a) = boot_step(BootState::AwaitingPong, BootEvent::StdoutClosed);
    assert_eq!(a, BootAction::Finish(Err("sidecar stdout 已关闭（进程退出？）")));
    let (_, a) = boot_step(BootState::AwaitingCallback, BootEvent::CallbackTimedOut);
    assert_eq!(a, BootAction::Finish(Err("回调观测超时（sidecar 未回调 /api/projects）")));
}

#[test]
fn sidecar_log_levels() {
    assert_eq!(log_level("warn"), LogLevel::Warn);
    assert_eq!(log_level("error"), LogLevel::Error);
    assert_eq!(log_level("info"), LogLevel::Info);
    assert_eq!(log_level("debug"), LogLevel::Info);
}

// --- storage ------------------------------------------------------------------

#[test]
fn vault_layout_and_schema_version() {
    assert_eq!(vault_subdirs(), vec!["notes", "attachments", "inbox", "projects", "memory", "templates"]);
    assert!(needs_migration(0));
    assert!(!needs_migration(1));
    assert!(needs_seed(0));
    assert!(!needs_seed(1));
}

#[test]
fn fts_phrase_quotes_the_whole_query() {
    assert_eq!(fts_phrase("hello OR world"), "\"hello OR world\"");
    assert_eq!(fts_phrase("say \"hi\" jotline"), "\"say \"\"hi\"\" jotline\"");
    assert_eq!(fts_phrase(""), "\"\"");
}

#[test]
fn search_statement_without_filters() {
    let q = SearchQuery { q: "hello".to_string(), ..SearchQuery::default() };
    let st = build_search_sql(&q);
    assert_eq!(st.sql, format!("{SEARCH_HEAD} ORDER BY score DESC, i.id LIMIT ?"));
    assert_eq!(st.params, vec![SqlValue::Text("\"hello\"".to_string()), SqlValue::Integer(10)]);
}

#[test]
fn search_statement_with_every_filter() {
    let q = SearchQuery {
        q: "oracle".to_string(),
        project_id: Some(ProjectId::parse(SEED_PROJECT_ID).unwrap()),
        target_dir: Some("notes".to_string()),
        tags: Some(vec!["a".to_string(), "b".to_string()]),
        after: Some(Timestamp::parse_rfc3339("2025-06-12T06:32:00Z").unwrap()),
        before: None,
        top_k: Some(3),
    };
    let st = build_search_sql(&q);
    assert_eq!(
        st.sql,
        format!(
            "{SEARCH_HEAD} AND i.project_id = ? AND i.target_dir = ? AND i.created_at >= ? AND (SELECT COUNT(DISTINCT value) FROM json_each(i.tags) WHERE value IN (?, ?)) = 2 ORDER BY score DESC, i.id LIMIT ?"
        )
    );
    assert_eq!(
        st.params,
        vec![
            SqlValue::Text("\"oracle\"".to_string()),
            SqlValue::Text(SEED_PROJECT_ID.to_string()),
            SqlValue::Text("notes".to_string()),
            SqlValue::Text("2025-06-12T06:32:00.000000000Z".to_string()),
            SqlValue::Text("a".to_string()),
            SqlValue::Text("b".to_string()),
            SqlValue::Integer(3),
        ]
    );
}

#[test]
fn new_note_ids_are_prefixed_ulids() {
    let a = new_note_id();
    assert!(a.as_str().starts_with("itm_"));
    assert_eq!(a.as_str().len(), 30);
    assert!(NoteId::parse(a.as_str()).is_ok());
}

#[test]
fn prepared_note_is_manual_with_equal_times() {
    let n = prepare_note(&request()).unwrap();
    assert!(n.id.as_str().starts_with("itm_"));
    assert_eq!(n.created_at, n.updated_at);
    assert_eq!(n.format, NoteFormat::Markdown);
    assert!(n.tags.is_empty());
    assert_eq!(n.provenance.source, ProvenanceSource::Manual);
    assert_eq!(n.provenance.origin, "manual");
    assert!(!n.provenance.imported);
    assert_eq!(n.title, "切片验证");
    assert!(n.target_dir.is_none());
}

#[test]
fn build_note_keeps_request_fields() {
    let mut req = request();
    req.tags = Some(vec!["x".to_string()]);
    req.target_dir = Some("notes/uat".to_string());
    let id = NoteId::parse("itm_01J8Z3A7B4C5D6E7F8G9H0JKMN").unwrap();
    let now = Timestamp::parse_rfc3339("2025-06-12T06:32:00Z").unwrap();
    let n = build_note(&req, id, now);
    assert_eq!(n.id.as_str(), "itm_01J8Z3A7B4C5D6E7F8G9H0JKMN");
    assert_eq!(n.tags, vec!["x".to_string()]);
    assert_eq!(n.target_dir.as_deref(), Some("notes/uat"));
    assert_eq!(n.created_at, now);
    assert_eq!(n.body, "hello jotline");
}

#[test]
fn create_machine_success_path() {
    let (s, a) = create_start();
    assert_eq!((s.clone(), a), (CreateState::Checking, CreateAction::CheckProject));
    let (s, a) = create_step(s, CreateEvent::ProjectChecked(true));
    assert_eq!(a, CreateAction::WriteFile);
    let (s, a) = create_step(s, CreateEvent::FileWritten(Ok(())));
    assert_eq!(a, CreateAction::IndexNote);
    let (s, a) = create_step(s, CreateEvent::Indexed(Ok(())));
    assert_eq!((s, a), (CreateState::Done, CreateAction::Finish(CreateOutcome::Created)));
}

#[test]
fn create_machine_stops_on_missing_project() {
    let (s, a) = create_step(CreateState::Checking, CreateEvent::ProjectChecked(false));
    assert_eq!((s, a), (CreateState::Done, CreateAction::Finish(CreateOutcome::ProjectNotFound)));
}

#[test]
fn create_machine_removes_orphan_after_index_failure() {
    let (s, a) = create_step(CreateState::Indexing, CreateEvent::Indexed(Err("触发失败".to_string())));
    assert_eq!(a, CreateAction::RemoveOrphan);
    let (s, a) = create_step(s, CreateEvent::OrphanRemoved);
    assert_eq!((s, a), (CreateState::Done, CreateAction::Finish(CreateOutcome::StorageFailed("触发失败".to_string()))));
    let (_, a) = create_step(CreateState::Writing, CreateEvent::FileWritten(Err("disk".to_string())));
    assert_eq!(a, CreateAction::Finish(CreateOutcome::StorageFailed("disk".to_string())));
}

#[test]
fn note_rows_read_back() {
    let n = note_from_row(note_row()).unwrap();
    assert_eq!(n.id.as_str(), "itm_01J8Z3A7B4C5D6E7F8G9H0JKMN");
    assert_eq!(n.tags, vec!["uat".to_string()]);
    assert_eq!(n.created_at.to_rfc3339(), "2025-06-12T06:32:00Z");
    let mut r = note_row();
    r.format = "html".to_string();
    let e = note_from_row(r).unwrap_err();
    assert_eq!((e.column, e.message.as_str()), (5, "未知笔记格式：html"));
    let mut r = note_row();
    r.tags = "{\"not\": \"a list\"}".to_string();
    let e = note_from_row(r).unwrap_err();
    assert_eq!(e.column, 6);
    assert!(e.message.contains("expected a sequence"));
    let mut r = note_row();
    r.updated_at = "never".to_string();
    assert_eq!(note_from_row(r).unwrap_err().column, 9);
    let mut r = note_row();
    r.id = "prj_01J8Z3A7B4C5D6E7F8G9H0JKMN".to_string();
    assert_eq!(note_from_row(r).unwrap_err().column, 0);
}

#[test]
fn project_rows_read_back() {
    let row = ProjectRow {
        id: SEED_PROJECT_ID.to_string(),
        name: "切片示例".to_string(),
        sensitive: 0,
        template_id: None,
        created_at: "2025-06-01T02:00:00.000000000Z".to_string(),
        updated_at: "2025-06-10T08:00:00.000000000Z".to_string(),
    };
    let p = project_from_row(row.clone()).unwrap();
    assert_eq!(p.id.as_str(), SEED_PROJECT_ID);
    assert!(!p.sensitive);
    assert!(p.template_id.is_none());
    let mut r = row.clone();
    r.sensitive = 1;
    r.template_id = Some("tpl_01J8Z3TPM10000000000000000".to_string());
    let p = project_from_row(r).unwrap();
    assert!(p.sensitive);
    assert_eq!(p.template_id.unwrap().as_str(), "tpl_01J8Z3TPM10000000000000000");
    let mut r = row.clone();
    r.template_id = Some("bogus".to_string());
    assert_eq!(project_from_row(r).unwrap_err().column, 3);
    let mut r = row;
    r.created_at = "bad".to_string();
    assert_eq!(project_from_row(r).unwrap_err().column, 0);
}

// --- stream -------------------------------------------------------------------

#[test]
fn event_sequence_numbers_note_created() {
    let mut seq = EventSequence::new();
    let n = prepare_note(&request()).unwrap();
    let e = seq.note_created(n);
    assert_eq!(e.event_name(), "note_created");
    assert_eq!(e.event_id(), 1);
    let e2 = seq.note_created(prepare_note(&request()).unwrap());
    assert_eq!(e2.event_id(), 2);
    match e2 {
        StreamEnvelope::NoteCreated { payload, .. } => assert_eq!(payload.title, "切片验证"),
        _ => panic!("expected note_created"),
    }
    assert_eq!(seq.next_id(), 3);
}

#[test]
fn repo_root_is_three_levels_up_and_marked() {
    assert_eq!(
        repo_root_candidate("/work/jotline/src-tauri/crates/server"),
        Some("/work/jotline".to_string())
    );
    assert_eq!(repo_root_candidate("/a/b"), None);
    assert_eq!(repo_root(Some("/r".to_string()), true), Ok("/r".to_string()));
    assert_eq!(repo_root(Some("/r".to_string()), false), Err("仓库根定位失败：/r".to_string()));
    assert_eq!(repo_root(None, true), Err("无法定位仓库根目录".to_string()));
}

#[test]
fn missing_field_is_read_back_after_a_prefix() {
    assert_eq!(extract_field("Failed to deserialize query string: missing field `q`"), "q");
    assert_eq!(extract_field("missing field ``"), "");
}

#[test]
fn note_index_row_reads_back_as_the_note() {
    let mut req = request();
    req.tags = Some(vec!["uat".to_string(), "db".to_string()]);
    req.target_dir = Some("notes".to_string());
    let n = prepare_note(&req).unwrap();
    let row = note_index_row(&n);
    assert_eq!(row.format, "markdown");
    assert_eq!(row.tags, "[\"uat\",\"db\"]");
    assert_eq!(row.created_at, n.created_at.storage_key());
    let back = note_from_row(row).unwrap();
    assert_eq!(back, n);
}

#[test]
fn search_statement_has_one_parameter_per_placeholder() {
    let queries = vec![
        SearchQuery { q: "a?b".to_string(), ..SearchQuery::default() },
        SearchQuery {
            q: "x".to_string(),
            project_id: Some(ProjectId::parse(SEED_PROJECT_ID).unwrap()),
            before: Some(Timestamp::parse_rfc3339("2025-06-12T06:32:00Z").unwrap()),
            tags: Some(vec!["1".to_string(), "2".to_string(), "3".to_string()]),
            ..SearchQuery::default()
        },
        SearchQuery { q: "y".to_string(), tags: Some(Vec::new()), top_k: Some(0), ..SearchQuery::default() },
    ];
    for q in queries {
        let st = build_search_sql(&q);
        assert_eq!(st.sql.matches('?').count(), st.params.len());
    }
}

#[test]
fn repeated_query_tags_count_once() {
    let q = SearchQuery {
        q: "x".to_string(),
        tags: Some(vec!["a".to_string(), "b".to_string(), "a".to_string(), "b".to_string()]),
        ..SearchQuery::default()
    };
    let st = build_search_sql(&q);
    assert_eq!(
        st.sql,
        format!(
            "{SEARCH_HEAD} AND (SELECT COUNT(DISTINCT value) FROM json_each(i.tags) WHERE value IN (?, ?)) = 2 ORDER BY score DESC, i.id LIMIT ?"
        )
    );
    assert_eq!(
        st.params,
        vec![
            SqlValue::Text("\"x\"".to_string()),
            SqlValue::Text("a".to_string()),
            SqlValue::Text("b".to_string()),
            SqlValue::Integer(10),
        ]
    );
}

#[test]
fn event_fit_checks_follow_the_machines() {
    assert!(event_answers(&CreateState::Checking, &CreateEvent::ProjectChecked(true)));
    assert!(!event_answers(&CreateState::Writing, &CreateEvent::OrphanRemoved));
    assert!(event_answers(&CreateState::Removing("e".to_string()), &CreateEvent::OrphanRemoved));
    assert!(boot_event_allowed(BootState::AwaitingPong, &BootEvent::StdoutClosed));
    assert!(!boot_event_allowed(BootState::Done, &BootEvent::CallbackSeen));
}
