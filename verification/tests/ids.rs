use jotline::ids::{
    is_valid_id, is_valid_ulid, CaptureId, CardId, IdStr, NoteId, ProjectId, TemplateId,
};

#[test]
fn id_roundtrip() {
    let id = NoteId::parse("itm_01J8Z3A7B4C5D6E7F8G9H0JKMN").unwrap();
    assert_eq!(id.as_str(), "itm_01J8Z3A7B4C5D6E7F8G9H0JKMN");
    assert_eq!(NoteId::PREFIX, "itm");
    assert!(NoteId::parse("prj_01J8Z3A7B4C5D6E7F8G9H0JKMN").is_err());
    assert!(NoteId::parse("itm_01J8Z3A7B4C5D6E7F8G9H0JKMI").is_err());
    assert!(NoteId::parse("itm_01J8Z3A7B4C5D6E7F8G9H0JKLM").is_err());
    assert!(NoteId::parse("itm_01J8Z3A7B4C5D6E7F8G9H0JKMO").is_err());
    assert!(NoteId::parse("itm_01J8Z3A7B4C5D6E7F8G9H0JKMU").is_err());
    assert!(NoteId::parse("itm_01J8Z3").is_err());
    assert!(NoteId::from_ulid("01J8Z3A7B4C5D6E7F8G9H0JKMN").is_ok());
    assert!(NoteId::from_ulid("01J8Z3").is_err());
}

#[test]
fn id_str_accepts_any_prefix() {
    assert!(IdStr::parse("crd_01J8Z3A7B4C5D6E7F8G9H0JKMN").is_ok());
    assert!(IdStr::parse("itm_01J8Z3A7B4C5D6E7F8G9H0JKMN").is_ok());
    assert!(IdStr::parse("xxxx_01J8Z3A7B4C5D6E7F8G9H0JKMN").is_err());
}

#[test]
fn ulid_body_checks_length_and_alphabet() {
    assert!(is_valid_ulid("01J8Z3A7B4C5D6E7F8G9H0JKMN"));
    assert!(!is_valid_ulid("01J8Z3A7B4C5D6E7F8G9H0JKM"));
    assert!(!is_valid_ulid("01J8Z3A7B4C5D6E7F8G9H0JKMNP"));
    assert!(!is_valid_ulid("01j8z3a7b4c5d6e7f8g9h0jkmn"));
    assert!(!is_valid_ulid(""));
    assert!(!is_valid_ulid("01J8Z3A7B4C5D6E7F8G9H0JKM中"));
}

#[test]
fn full_id_splits_at_first_underscore() {
    assert!(is_valid_id("prj", "prj_01J8Z3A7B4C5D6E7F8G9H0JKMN"));
    assert!(!is_valid_id("prj", "prj01J8Z3A7B4C5D6E7F8G9H0JKMN"));
    assert!(!is_valid_id("prj", "prj__01J8Z3A7B4C5D6E7F8G9H0JKMN"));
    assert!(!is_valid_id("pr_j", "pr_j_01J8Z3A7B4C5D6E7F8G9H0JKMN"));
    assert!(!is_valid_id("prj", "prjx_01J8Z3A7B4C5D6E7F8G9H0JKMN"));
    assert!(is_valid_id("", "_01J8Z3A7B4C5D6E7F8G9H0JKMN"));
}

#[test]
fn parse_error_messages_name_the_type_and_prefix() {
    let e = ProjectId::parse("prj_bogus").unwrap_err();
    assert_eq!(e, "非法 ProjectId：prj_bogus（期望 `prj_<26 位 ULID>`）");
    let e = CardId::from_ulid("short").unwrap_err();
    assert_eq!(e, "非法 ULID：short（期望 26 位 Crockford Base32）");
    let e = IdStr::parse("bad").unwrap_err();
    assert_eq!(e, "非法实体 ID 引用：bad（期望 `<前缀>_<26 位 ULID>`）");
}

#[test]
fn from_ulid_adds_the_prefix_and_parses_back() {
    let id = CaptureId::from_ulid("01J8Z3A7B4C5D6E7F8G9H0JKMN").unwrap();
    assert_eq!(id.as_str(), "cap_01J8Z3A7B4C5D6E7F8G9H0JKMN");
    assert_eq!(CaptureId::parse(id.as_str()).unwrap(), id);
    let t: TemplateId = "tpl_01J8Z3A7B4C5D6E7F8G9H0JKMN".parse().unwrap();
    assert_eq!(t.duplicate(), t);
}

#[test]
fn id_ref_rejects_upper_case_prefix_and_wrong_separator() {
    assert!(IdStr::parse("CRD_01J8Z3A7B4C5D6E7F8G9H0JKMN").is_err());
    assert!(IdStr::parse("crd-01J8Z3A7B4C5D6E7F8G9H0JKMN").is_err());
    assert!(IdStr::parse("crd_01J8Z3A7B4C5D6E7F8G9H0JKMI").is_err());
    assert_eq!(
        IdStr::parse("aud_01J8Z3A7B4C5D6E7F8G9H0JKMN").unwrap().as_str(),
        "aud_01J8Z3A7B4C5D6E7F8G9H0JKMN"
    );
}

#[test]
fn id_ref_refuses_multibyte_text_without_panicking() {
    let raw = format!("ab€{}", "0".repeat(25));
    assert_eq!(raw.len(), 30);
    assert!(IdStr::parse(&raw).is_err());
    assert!(IdStr::parse("abc_01J8Z3A7B4C5D6E7F8G9H0JKM€").is_err());
}
