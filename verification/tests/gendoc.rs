use jotline::gendoc::{deref_refs, enforce_wire_discipline, strip_null, MAX_DEREF_DEPTH};
use jotline::json::JsonValue;

fn s(t: &str) -> JsonValue {
    JsonValue::String(t.to_string())
}

fn n(t: &str) -> JsonValue {
    JsonValue::Number(t.to_string())
}

fn obj(entries: Vec<(&str, JsonValue)>) -> JsonValue {
    JsonValue::Object(entries.into_iter().map(|(k, v)| (k.to_string(), v)).collect())
}

fn arr(items: Vec<JsonValue>) -> JsonValue {
    JsonValue::Array(items)
}

fn get<'a>(v: &'a JsonValue, key: &str) -> Option<&'a JsonValue> {
    match v {
        JsonValue::Object(es) => es.iter().find(|(k, _)| k == key).map(|(_, v)| v),
        _ => None,
    }
}

fn at<'a>(v: &'a JsonValue, i: usize) -> &'a JsonValue {
    match v {
        JsonValue::Array(items) => &items[i],
        _ => panic!("not an array"),
    }
}

fn keys(v: &JsonValue) -> Vec<String> {
    match v {
        JsonValue::Object(es) => {
            let mut ks: Vec<String> = es.iter().map(|(k, _)| k.clone()).collect();
            ks.sort();
            ks
        }
        _ => Vec::new(),
    }
}

#[test]
fn oneof_collapse_promotes_x_keys_over_siblings() {
    let mut v = obj(vec![
        ("description", s("外层描述")),
        (
            "oneOf",
            arr(vec![
                obj(vec![("type", s("null"))]),
                obj(vec![("type", s("string")), ("description", s("X 描述")), ("maxLength", n("10"))]),
            ]),
        ),
    ]);
    assert!(strip_null(&mut v));
    assert!(get(&v, "oneOf").is_none(), "oneOf 应被坍缩移除");
    assert_eq!(get(&v, "type"), Some(&s("string")));
    assert_eq!(get(&v, "description"), Some(&s("X 描述")), "X 的键应覆盖外层兄弟键");
    assert_eq!(get(&v, "maxLength"), Some(&n("10")));
}

#[test]
fn nullable_type_array_collapses_to_scalar() {
    let mut v = obj(vec![("type", arr(vec![s("integer"), s("null")])), ("minimum", n("0"))]);
    assert!(strip_null(&mut v));
    assert_eq!(keys(&v), vec!["minimum".to_string(), "type".to_string()]);
    assert_eq!(get(&v, "type"), Some(&s("integer")));
    assert_eq!(get(&v, "minimum"), Some(&n("0")));
}

#[test]
fn deref_expands_ref_with_sibling_override() {
    let components = obj(vec![(
        "Note",
        obj(vec![
            ("type", s("object")),
            ("description", s("原描述")),
            ("properties", obj(vec![("id", obj(vec![("type", s("string"))]))])),
        ]),
    )]);
    let mut v = obj(vec![("$ref", s("#/components/schemas/Note")), ("description", s("字段级描述"))]);
    deref_refs(&mut v, &components, 0).unwrap();
    assert_eq!(get(&v, "description"), Some(&s("字段级描述")), "兄弟键应覆盖目标内同名键");
    assert_eq!(get(&v, "type"), Some(&s("object")));
    assert!(get(&v, "properties").is_some(), "目标内容应展开");
    assert!(get(&v, "$ref").is_none());
}

#[test]
fn cyclic_ref_hits_depth_limit() {
    let components = obj(vec![
        ("A", obj(vec![("$ref", s("#/components/schemas/B"))])),
        ("B", obj(vec![("$ref", s("#/components/schemas/A"))])),
    ]);
    let mut v = obj(vec![("$ref", s("#/components/schemas/A"))]);
    let err = deref_refs(&mut v, &components, 0).unwrap_err();
    assert!(err.contains("超深"), "应报深度上限错误：{err}");
}

#[test]
fn query_param_required_fixed_after_null_strip() {
    let mut v = obj(vec![(
        "paths",
        obj(vec![(
            "/api/notes",
            obj(vec![(
                "get",
                obj(vec![(
                    "parameters",
                    arr(vec![
                        obj(vec![
                            ("name", s("q")),
                            ("in", s("query")),
                            ("required", JsonValue::Bool(true)),
                            ("schema", obj(vec![("type", arr(vec![s("string"), s("null")]))])),
                        ]),
                        obj(vec![
                            ("name", s("limit")),
                            ("in", s("query")),
                            ("required", JsonValue::Bool(true)),
                            ("schema", obj(vec![("type", s("integer"))])),
                        ]),
                    ]),
                )]),
            )]),
        )]),
    )]);
    enforce_wire_discipline(&mut v);
    let params = get(get(get(get(&v, "paths").unwrap(), "/api/notes").unwrap(), "get").unwrap(), "parameters")
        .unwrap();
    assert_eq!(get(get(at(params, 0), "schema").unwrap(), "type"), Some(&s("string")), "剔 null 后坍缩为标量");
    assert_eq!(get(at(params, 0), "required"), Some(&JsonValue::Bool(false)), "剔 null 的参数 required 应修正为 false");
    assert_eq!(get(at(params, 1), "required"), Some(&JsonValue::Bool(true)), "未剔 null 的参数 required 不受影响");
}

#[test]
fn strip_without_null_forms_changes_nothing() {
    let mut v = obj(vec![
        ("type", s("object")),
        ("oneOf", arr(vec![obj(vec![("type", s("string"))]), obj(vec![("type", s("null"))])])),
        ("items", arr(vec![n("1"), JsonValue::Null, JsonValue::Bool(false)])),
    ]);
    let before = obj(vec![
        ("type", s("object")),
        ("oneOf", arr(vec![obj(vec![("type", s("string"))]), obj(vec![("type", s("null"))])])),
        ("items", arr(vec![n("1"), JsonValue::Null, JsonValue::Bool(false)])),
    ]);
    assert!(!strip_null(&mut v));
    assert_eq!(v, before);
}

#[test]
fn strip_reaches_nested_arrays_and_promoted_values() {
    let mut v = arr(vec![obj(vec![(
        "oneOf",
        arr(vec![
            obj(vec![("type", s("null"))]),
            obj(vec![("properties", obj(vec![("a", obj(vec![("type", arr(vec![s("null"), s("string"), s("integer")]))]))]))]),
        ]),
    )])]);
    assert!(strip_null(&mut v));
    let a = get(get(at(&v, 0), "properties").unwrap(), "a").unwrap();
    assert_eq!(get(a, "type"), Some(&arr(vec![s("string"), s("integer")])));
}

#[test]
fn deref_reports_missing_target_and_foreign_ref() {
    let components = obj(vec![]);
    let mut v = obj(vec![("$ref", s("#/components/schemas/Nope"))]);
    assert_eq!(deref_refs(&mut v, &components, 0).unwrap_err(), "$ref 目标不存在：Nope");
    let mut w = arr(vec![obj(vec![("$ref", s("other.json#/X"))])]);
    assert_eq!(deref_refs(&mut w, &components, 0).unwrap_err(), "不支持的 $ref 形态：other.json#/X");
}

#[test]
fn deref_refuses_depth_past_the_limit() {
    let components = obj(vec![]);
    let mut v = JsonValue::Null;
    assert!(deref_refs(&mut v, &components, MAX_DEREF_DEPTH).is_ok());
    assert_eq!(
        deref_refs(&mut v, &components, MAX_DEREF_DEPTH + 1).unwrap_err(),
        "工具 Schema $ref 解引用超深（疑似循环引用）"
    );
}

#[test]
fn strip_leaves_no_nullable_type_at_any_depth() {
    let mut v = obj(vec![
        ("type", arr(vec![s("object"), s("null")])),
        (
            "properties",
            obj(vec![
                ("a", obj(vec![("type", arr(vec![s("null"), s("string")]))])),
                ("b", obj(vec![("items", obj(vec![("type", arr(vec![s("integer"), s("null"), s("string")]))]))])),
            ]),
        ),
    ]);
    assert!(strip_null(&mut v));
    assert_eq!(get(&v, "type"), Some(&s("object")));
    let props = get(&v, "properties").unwrap();
    assert_eq!(get(get(props, "a").unwrap(), "type"), Some(&s("string")));
    let items = get(get(props, "b").unwrap(), "items").unwrap();
    assert_eq!(get(items, "type"), Some(&arr(vec![s("integer"), s("string")])));
}

#[test]
fn self_reference_is_too_deep_and_left_as_is() {
    let components = obj(vec![("Node", obj(vec![("$ref", s("#/components/schemas/Node"))]))]);
    let mut v = obj(vec![("$ref", s("#/components/schemas/Node")), ("description", s("d"))]);
    let err = deref_refs(&mut v, &components, 5).unwrap_err();
    assert_eq!(err, "工具 Schema $ref 解引用超深（疑似循环引用）");
    assert_eq!(v, obj(vec![("$ref", s("#/components/schemas/Node")), ("description", s("d"))]));
}

#[test]
fn strip_twice_removes_nothing_the_second_time() {
    let build = || {
        obj(vec![
            ("description", s("d")),
            ("oneOf", arr(vec![obj(vec![("type", s("null"))]), obj(vec![("type", arr(vec![s("string"), s("null")]))])])),
            ("items", arr(vec![obj(vec![("type", arr(vec![s("null"), s("integer")]))])])),
        ])
    };
    let mut v = build();
    assert!(strip_null(&mut v));
    let once = obj(vec![
        ("description", s("d")),
        ("items", arr(vec![obj(vec![("type", s("integer"))])])),
        ("type", s("string")),
    ]);
    assert_eq!(keys(&v), keys(&once));
    assert!(!strip_null(&mut v));
    assert_eq!(get(&v, "type"), Some(&s("string")));
    assert_eq!(get(at(get(&v, "items").unwrap(), 0), "type"), Some(&s("integer")));
}

#[test]
fn strip_collapses_a_nullable_one_of_promoted_from_a_branch() {
    let mut v = obj(vec![(
        "oneOf",
        arr(vec![
            obj(vec![("type", s("null"))]),
            obj(vec![("oneOf", arr(vec![obj(vec![("type", s("null"))]), obj(vec![("type", s("string"))])]))]),
        ]),
    )]);
    assert!(strip_null(&mut v));
    assert_eq!(v, obj(vec![("type", s("string"))]));
    assert!(!strip_null(&mut v));
    assert_eq!(v, obj(vec![("type", s("string"))]));
}

#[test]
fn strip_collapses_a_branch_that_becomes_the_null_schema() {
    let mut v = obj(vec![(
        "oneOf",
        arr(vec![
            obj(vec![("oneOf", arr(vec![obj(vec![("type", s("null"))]), obj(vec![("type", s("null"))])]))]),
            obj(vec![("type", s("integer"))]),
        ]),
    )]);
    assert!(strip_null(&mut v));
    assert_eq!(v, obj(vec![("type", s("integer"))]));
}

#[test]
fn strip_drops_null_from_a_nested_single_type() {
    let mut v = obj(vec![("type", arr(vec![arr(vec![s("null"), s("number")]), s("null")]))]);
    assert!(strip_null(&mut v));
    assert_eq!(v, obj(vec![("type", s("number"))]));
}

#[test]
fn deref_expands_references_inside_sibling_keys() {
    let components = obj(vec![("A", obj(vec![("type", s("string"))]))]);
    let mut v = obj(vec![
        ("$ref", s("#/components/schemas/A")),
        ("items", obj(vec![("$ref", s("#/components/schemas/A"))])),
    ]);
    deref_refs(&mut v, &components, 0).unwrap();
    assert_eq!(v, obj(vec![("type", s("string")), ("items", obj(vec![("type", s("string"))]))]));
}

#[test]
fn deref_leaves_the_object_when_a_sibling_fails() {
    let components = obj(vec![("A", obj(vec![("type", s("string"))]))]);
    let original = || {
        obj(vec![
            ("$ref", s("#/components/schemas/A")),
            ("items", obj(vec![("$ref", s("#/components/schemas/Missing"))])),
        ])
    };
    let mut v = original();
    let err = deref_refs(&mut v, &components, 0).unwrap_err();
    assert_eq!(err, "$ref 目标不存在：Missing");
    assert_eq!(v, original());
}
