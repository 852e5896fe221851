use dynquery::context::Context;
use dynquery::dynamic::{dyn_cmp, dyn_eq, Dynamic, Number, Object};
use dynquery::script::{parse_predicate, parse_script};
use dynquery::EvalError;

/// Parses a literal script and evaluates it under a fresh context.
fn val(text: &str) -> Dynamic {
    parse_script(text.as_bytes())
        .expect("parse failed")
        .eval()
        .expect("eval failed")
}

/// Parses a script and evaluates it with the given `ROOT` and `CURRENT`.
fn eval_with(text: &str, root: Dynamic, current: Dynamic) -> Result<Dynamic, EvalError> {
    let script = parse_script(text.as_bytes()).expect("parse failed");
    let mut ctx = Context::new();
    ctx.set_variable(b"ROOT".to_vec(), root).expect("set ROOT");
    ctx.set_variable(b"CURRENT".to_vec(), current)
        .expect("set CURRENT");
    script.eval_with_context(&mut ctx)
}

fn is_true(r: Result<Dynamic, EvalError>) -> bool {
    matches!(r, Ok(Dynamic::Bool(true)))
}

#[test]
fn it_works() {
    let script_text = r#"{
        "result": {
            "$match": {
                "object": "$$CURRENT",
                "predicate":
                    {
                        "field1": "TODWA",
                        "field2.field3": 12,
                        "field2" : {
                            "field4": true
                        }
                    }
                }
            }
        }
        "#;
    let inner = Dynamic::Object(Object::DynamicObject(vec![
        (b"field3".to_vec(), Dynamic::Number(Number::Int(12))),
        (b"field4".to_vec(), Dynamic::Bool(true)),
    ]));
    let current = Dynamic::Object(Object::DynamicObject(vec![
        (
            b"field1".to_vec(),
            Dynamic::String(b"TODWA".to_vec()),
        ),
        (b"field2".to_vec(), inner),
    ]));
    let root = val(
        r#"{
            "field1": "TODWA",
            "field2": {
                "field3": 12,
                "field4": true,
                "field5": [1,2,3,4,5,6,{"field10": 10}]
            }
        }"#,
    );
    let out = eval_with(script_text, root, current).expect("eval failed");
    assert!(dyn_eq(&out, &val(r#"{"result": true}"#)));
}

#[test]
fn variable_passthrough() {
    let current = val(r#"{"a": 1}"#);
    let out = eval_with("\"$$CURRENT\"", Dynamic::Null, current).expect("eval failed");
    assert!(dyn_eq(&out, &val(r#"{"a": 1}"#)));
}

#[test]
fn array_index() {
    let root = val(r#"{"f": {"arr": [10, 20, 30]}}"#);
    let out = eval_with("\"$f.arr[2]\"", root, Dynamic::Null).expect("eval failed");
    assert!(dyn_eq(&out, &val("30")));
}

#[test]
fn equality_is_insertion_ordered() {
    let script = r#"{ "$eq": ["$$ROOT", {"x": 1, "y": [1,2]}] }"#;
    let same_order = val(r#"{"x": 1, "y": [1,2]}"#);
    assert!(is_true(eval_with(script, same_order, Dynamic::Null)));
    let other_order = val(r#"{"y": [1,2], "x": 1}"#);
    let out = eval_with(script, other_order, Dynamic::Null).expect("eval failed");
    assert!(dyn_eq(&out, &Dynamic::Bool(false)));
}

#[test]
fn match_without_object_uses_root() {
    let root = val(r#"{"a": 1}"#);
    let script = r#"{ "$match": { "a": 1 } }"#;
    let parsed = parse_script(script.as_bytes()).expect("parse failed");
    let mut ctx = Context::new();
    ctx.set_variable(b"ROOT".to_vec(), root).expect("set ROOT");
    let out = parsed.eval_with_context(&mut ctx).expect("eval failed");
    assert!(dyn_eq(&out, &Dynamic::Bool(true)));
    assert!(ctx.get_current().is_null());
}

#[test]
fn match_named_args_in_either_order() {
    let first = r#"{ "$match": {"predicate": {"a": 1}, "object": "$$CURRENT"} }"#;
    let second = r#"{ "$match": {"object": "$$CURRENT", "predicate": {"a": 1}} }"#;
    let current = val(r#"{"a": 1}"#);
    let out1 = eval_with(first, Dynamic::Null, current).expect("eval failed");
    let current = val(r#"{"a": 1}"#);
    let out2 = eval_with(second, Dynamic::Null, current).expect("eval failed");
    assert!(dyn_eq(&out1, &out2));
    assert!(dyn_eq(&out1, &Dynamic::Bool(true)));
}

#[test]
fn match_named_args_reject_duplicate_or_missing_keys() {
    // A repeated key cannot fill both slots, so the body re-parses as a bare
    // predicate with field constraints, which the subject fails.
    let out = eval_with(
        r#"{ "$match": {"object": 1, "object": 2} }"#,
        Dynamic::Null,
        Dynamic::Null,
    );
    assert!(!is_true(out));
}

#[test]
fn duplicate_object_keys_collapse_to_the_last_value() {
    let out = val(r#"{"a": 1, "a": 2}"#);
    let got = out.get_object_field(b"a").expect("key absent");
    assert!(dyn_eq(&got, &val("2")));
    let entries = out.as_map().expect("not a mapping");
    assert_eq!(entries.len(), 1);
}

#[test]
fn numbers_compare_across_kinds() {
    assert!(is_true(eval_with(
        r#"{ "$eq": [1, 1.0] }"#,
        Dynamic::Null,
        Dynamic::Null
    )));
    assert!(is_true(eval_with(
        r#"{ "$lt": [1.5, 2] }"#,
        Dynamic::Null,
        Dynamic::Null
    )));
}

#[test]
fn float_literals_parse_to_their_bit_patterns() {
    assert!(dyn_eq(
        &val("1.5"),
        &Dynamic::Number(Number::Float((1.5f64).to_bits()))
    ));
    assert!(dyn_eq(
        &val("0.25"),
        &Dynamic::Number(Number::Float((0.25f64).to_bits()))
    ));
    assert!(dyn_eq(
        &val("3e2"),
        &Dynamic::Number(Number::Float((300.0f64).to_bits()))
    ));
    assert!(dyn_eq(&val("-0.0"), &val("0.0")));
}

#[test]
fn string_escapes_and_surrogate_pairs() {
    assert!(dyn_eq(
        &val("\"a\\n\\u0041\""),
        &Dynamic::String(b"a\nA".to_vec())
    ));
    let grin = val("\"\\ud83d\\ude00\"");
    assert!(dyn_eq(
        &grin,
        &Dynamic::String("\u{1F600}".as_bytes().to_vec())
    ));
    assert!(parse_script(b"\"\\ud800\"").is_err());
}

#[test]
fn predicate_operators_hold() {
    let cases_true = [
        r#"{ "$match": {"x": {"$gt": 1}} }"#,
        r#"{ "$match": {"x": {"$gte": 2}} }"#,
        r#"{ "$match": {"x": {"$lt": 3}} }"#,
        r#"{ "$match": {"x": {"$lte": 2}} }"#,
        r#"{ "$match": {"x": {"$ne": 5}} }"#,
        r#"{ "$match": {"x": {"$between": [1, 3]}} }"#,
        r#"{ "$match": {"x": {"$in": [1, 2, 3]}} }"#,
        r#"{ "$match": {"x": {"$not": 5}} }"#,
        r#"{ "$match": {"x": {"$and": [2, {"$gt": 1}]}} }"#,
        r#"{ "$match": {"x": {"$or": [5, 2]}} }"#,
    ];
    for script in cases_true {
        let root = val(r#"{"x": 2}"#);
        assert!(is_true(eval_with(script, root, Dynamic::Null)), "{script}");
    }
    let root = val(r#"{"x": 2}"#);
    assert!(!is_true(eval_with(
        r#"{ "$match": {"x": {"$gt": 2}} }"#,
        root,
        Dynamic::Null
    )));
}

#[test]
fn predicate_misses_make_the_subject_null() {
    // A missing path in predicate position is not an error: the subject
    // becomes Null and the leaf comparison decides.
    let root = val(r#"{"a": 1}"#);
    assert!(is_true(eval_with(
        r#"{ "$match": {"nope": null} }"#,
        root,
        Dynamic::Null
    )));
}

#[test]
fn missing_variable_is_an_error_in_expression_position() {
    let out = eval_with("\"$$NOPE\"", Dynamic::Null, Dynamic::Null);
    assert!(matches!(out, Err(EvalError::UndefinedVariable)));
    let root = val(r#"{"a": 1}"#);
    let out = eval_with("\"$missing.path\"", root, Dynamic::Null);
    assert!(matches!(out, Err(EvalError::UndefinedVariable)));
}

#[test]
fn cross_variant_comparison_uses_the_rank() {
    // null < number < string < object < array < bool
    assert!(is_true(eval_with(
        r#"{ "$lt": [null, 0] }"#,
        Dynamic::Null,
        Dynamic::Null
    )));
    assert!(is_true(eval_with(
        r#"{ "$lt": [0, "a"] }"#,
        Dynamic::Null,
        Dynamic::Null
    )));
    assert!(is_true(eval_with(
        r#"{ "$lt": [[1], true] }"#,
        Dynamic::Null,
        Dynamic::Null
    )));
    assert!(is_true(eval_with(
        r#"{ "$gt": [true, false] }"#,
        Dynamic::Null,
        Dynamic::Null
    )));
}

#[test]
fn array_ordering_is_lexicographic() {
    assert!(is_true(eval_with(
        r#"{ "$lt": [[1, 2], [1, 3]] }"#,
        Dynamic::Null,
        Dynamic::Null
    )));
    assert!(is_true(eval_with(
        r#"{ "$lt": [[1], [1, 0]] }"#,
        Dynamic::Null,
        Dynamic::Null
    )));
    let a = val("[1, 2]");
    let b = val("[1, 2]");
    assert_eq!(dyn_cmp(&a, &b), Some(std::cmp::Ordering::Equal));
}

#[test]
fn parse_rejects_malformed_scripts() {
    assert!(parse_script(b"[1,").is_err());
    assert!(parse_script(b"\"$\"").is_err());
    assert!(parse_script(b"").is_err());
    assert!(parse_script(b"1 2").is_err());
    assert!(parse_script(b"{\"$gt\": [1]}").is_err());
}

#[test]
fn eval_with_root_binds_root() {
    let script = parse_script(b"\"$x\"").expect("parse failed");
    let out = script.eval_with_root(val(r#"{"x": 7}"#)).expect("eval failed");
    assert!(dyn_eq(&out, &val("7")));
}

#[test]
fn parse_predicate_accepts_whole_predicates() {
    assert!(parse_predicate(b"{\"x\": 1}").is_ok());
    assert!(parse_predicate(b"{\"x\": {\"$gt\": 1}} trailing").is_err());
}

#[test]
fn removed_variables_are_absent() {
    let mut ctx = Context::new();
    ctx.set_variable(b"USER".to_vec(), val("1")).expect("set");
    assert!(ctx.get_variable(b"USER").is_some());
    ctx.remove_variable(b"USER").expect("remove");
    assert!(ctx.get_variable(b"USER").is_none());
}

#[test]
fn match_restores_current_after_failure_too() {
    let current = val(r#"{"keep": 1}"#);
    let script = r#"{ "$match": {"predicate": {"a": 1}, "object": "$$CURRENT"} }"#;
    let parsed = parse_script(script.as_bytes()).expect("parse failed");
    let mut ctx = Context::new();
    ctx.set_variable(b"CURRENT".to_vec(), current).expect("set");
    let out = parsed.eval_with_context(&mut ctx).expect("eval failed");
    assert!(dyn_eq(&out, &Dynamic::Bool(false)));
    assert!(dyn_eq(&ctx.get_current(), &val(r#"{"keep": 1}"#)));
}
