//! End-to-end validation scenarios: the construction modes, the
//! recursion guard, the error model and the hook.

use model_engine::compile::build_validator;
use model_engine::config::{Config, ConfigValue, CONFIG_REVALIDATE_MODELS};
use model_engine::errors::{BuildError, ErrorKind, ValError};
use model_engine::guard::RecursionGuard;
use model_engine::schema::{ClassDef, Classes, FieldSchema, ModelSchema, Schema};
use model_engine::validator::{CombinedValidator, Extra, Question};
use model_engine::values::{Obj, Store, Value};

const X: u64 = 100;
const Y: u64 = 101;
const NEXT: u64 = 102;
const POINT: u64 = 1;
const NODE: u64 = 2;
const HOOK: u64 = 50;

fn no_extra() -> Extra {
    Extra {
        strict: None,
        self_instance: None,
        assignee_field: None,
        context: 0,
    }
}

fn point_classes(post_init_fails: bool) -> Classes {
    Classes {
        defs: vec![ClassDef {
            name: POINT,
            post_init_fails,
        }],
    }
}

fn point_schema(strict: Option<bool>, config: Option<Config>, post_init: Option<u64>) -> Schema {
    Schema::Model(ModelSchema {
        cls: 0,
        body: Box::new(Schema::Fields(vec![
            FieldSchema {
                name: X,
                schema: Schema::Int,
            },
            FieldSchema {
                name: Y,
                schema: Schema::Int,
            },
        ])),
        config,
        strict,
        post_init,
    })
}

fn dict_get(dict: &Vec<(u64, Value)>, key: u64) -> Option<&Value> {
    for (k, v) in dict {
        if *k == key {
            return Some(v);
        }
    }
    None
}

fn point_input() -> Value {
    Value::Mapping(vec![
        (X, Value::Str(vec!['1'])),
        (Y, Value::Int(2)),
    ])
}

fn run(
    schema: &Schema,
    classes: &Classes,
    store: &mut Store,
    input: &Value,
    extra: &Extra,
) -> Result<Value, ValError> {
    let v = build_validator(schema, None, classes, 0).unwrap();
    let slots: Vec<CombinedValidator> = Vec::new();
    let mut guard = RecursionGuard::new(0);
    v.validate(store, classes, input, extra, &slots, &mut guard)
}

#[test]
fn coercive_build_makes_a_point() {
    // {x: "1", y: 2}, non-strict: succeeds, x coerced to 1, and the
    // fields-set records both names
    let classes = point_classes(false);
    let schema = point_schema(None, None, None);
    let mut store = Store { objects: vec![] };
    let r = run(&schema, &classes, &mut store, &point_input(), &no_extra());
    assert!(matches!(r, Ok(Value::Instance(0))));
    assert_eq!(store.objects.len(), 1);
    let obj = &store.objects[0];
    assert_eq!(obj.class, 0);
    assert!(matches!(dict_get(&obj.dict, X), Some(Value::Int(1))));
    assert!(matches!(dict_get(&obj.dict, Y), Some(Value::Int(2))));
    assert_eq!(obj.fields_set.as_ref().unwrap(), &vec![X, Y]);
}

#[test]
fn strict_mode_rejects_plain_mapping() {
    // strict + a plain mapping: the class-mismatch condition naming
    // the target, even though the data itself would validate
    let classes = point_classes(false);
    let schema = point_schema(Some(true), None, None);
    let mut store = Store { objects: vec![] };
    let r = run(&schema, &classes, &mut store, &point_input(), &no_extra());
    match r {
        Err(ValError::LineErrors(ls)) => {
            assert_eq!(ls.len(), 1);
            assert!(matches!(
                ls[0].kind,
                ErrorKind::ModelClassType { class_name: POINT }
            ));
            assert!(ls[0].location.is_empty());
        }
        _ => panic!("expected a line error"),
    }
    assert_eq!(store.objects.len(), 0);
}

#[test]
fn call_level_strictness_overrides_the_schema() {
    let classes = point_classes(false);
    let schema = point_schema(Some(true), None, None);
    let mut store = Store { objects: vec![] };
    let extra = Extra {
        strict: Some(false),
        ..no_extra()
    };
    let r = run(&schema, &classes, &mut store, &point_input(), &extra);
    assert!(matches!(r, Ok(Value::Instance(0))));
}

fn existing_point(store: &mut Store, x: i64, y: i64, fields_set: Option<Vec<u64>>) -> usize {
    store.objects.push(Obj {
        class: 0,
        dict: vec![(X, Value::Int(x)), (Y, Value::Int(y))],
        fields_set,
    });
    store.objects.len() - 1
}

#[test]
fn passthrough_returns_the_same_object() {
    // revalidation disabled + exact instance: identity-equal result,
    // no copy, store untouched
    let classes = point_classes(false);
    let schema = point_schema(None, None, None);
    let mut store = Store { objects: vec![] };
    let id = existing_point(&mut store, 5, 6, Some(vec![X]));
    let r = run(
        &schema,
        &classes,
        &mut store,
        &Value::Instance(id),
        &no_extra(),
    );
    assert!(matches!(r, Ok(Value::Instance(i)) if i == id));
    assert_eq!(store.objects.len(), 1);
}

#[test]
fn revalidation_builds_a_distinct_instance() {
    // revalidation enabled + exact instance: a fresh identity with
    // equal field data, keeping the original's fields-set
    let classes = point_classes(false);
    let mut cfg = Config::new();
    assert!(cfg.insert(CONFIG_REVALIDATE_MODELS, ConfigValue::Bool(true)));
    let schema = point_schema(None, Some(cfg), None);
    let mut store = Store { objects: vec![] };
    let id = existing_point(&mut store, 5, 6, Some(vec![X]));
    let r = run(
        &schema,
        &classes,
        &mut store,
        &Value::Instance(id),
        &no_extra(),
    );
    match r {
        Ok(Value::Instance(nid)) => {
            assert_ne!(nid, id);
            assert_eq!(store.objects.len(), 2);
            let obj = &store.objects[nid];
            assert!(matches!(dict_get(&obj.dict, X), Some(Value::Int(5))));
            assert!(matches!(dict_get(&obj.dict, Y), Some(Value::Int(6))));
            // the original's fields-set wins over the revalidated one
            assert_eq!(obj.fields_set.as_ref().unwrap(), &vec![X]);
        }
        _ => panic!("expected a fresh instance"),
    }
}

#[test]
fn in_place_initialization_fills_the_target() {
    let classes = point_classes(false);
    let schema = point_schema(None, None, None);
    let mut store = Store { objects: vec![] };
    store.objects.push(Obj {
        class: 0,
        dict: vec![],
        fields_set: None,
    });
    let extra = Extra {
        self_instance: Some(0),
        ..no_extra()
    };
    let r = run(&schema, &classes, &mut store, &point_input(), &extra);
    assert!(matches!(r, Ok(Value::Instance(0))));
    assert_eq!(store.objects.len(), 1);
    let obj = &store.objects[0];
    assert!(matches!(dict_get(&obj.dict, X), Some(Value::Int(1))));
    assert_eq!(obj.fields_set.as_ref().unwrap(), &vec![X, Y]);
}

#[test]
fn reassignment_updates_field_and_fields_set_only() {
    // reassignment: no new host object; the validated value comes
    // back, the target's field and fields-set are brought up to date
    let classes = point_classes(false);
    let schema = point_schema(None, None, None);
    let mut store = Store { objects: vec![] };
    let id = existing_point(&mut store, 1, 2, Some(vec![X]));
    let extra = Extra {
        self_instance: Some(id),
        assignee_field: Some(Y),
        ..no_extra()
    };
    let r = run(&schema, &classes, &mut store, &Value::Int(9), &extra);
    assert!(matches!(r, Ok(Value::Int(9))));
    assert_eq!(store.objects.len(), 1);
    let obj = &store.objects[id];
    assert!(matches!(dict_get(&obj.dict, Y), Some(Value::Int(9))));
    assert_eq!(obj.fields_set.as_ref().unwrap(), &vec![X, Y]);
}

#[test]
fn reassignment_without_fields_set_facility_is_silent() {
    let classes = point_classes(false);
    let schema = point_schema(None, None, None);
    let mut store = Store { objects: vec![] };
    let id = existing_point(&mut store, 1, 2, None);
    let extra = Extra {
        self_instance: Some(id),
        assignee_field: Some(Y),
        ..no_extra()
    };
    let r = run(&schema, &classes, &mut store, &Value::Int(9), &extra);
    assert!(matches!(r, Ok(Value::Int(9))));
    assert!(store.objects[id].fields_set.is_none());
}

#[test]
fn reassignment_of_undeclared_field_fails() {
    let classes = point_classes(false);
    let schema = point_schema(None, None, None);
    let mut store = Store { objects: vec![] };
    let id = existing_point(&mut store, 1, 2, None);
    let extra = Extra {
        self_instance: Some(id),
        assignee_field: Some(NEXT),
        ..no_extra()
    };
    let r = run(&schema, &classes, &mut store, &Value::Int(9), &extra);
    match r {
        Err(ValError::LineErrors(ls)) => {
            assert!(matches!(ls[0].kind, ErrorKind::NoSuchAttribute { field: NEXT }));
        }
        _ => panic!("expected a line error"),
    }
}

#[test]
fn missing_field_is_reported_with_its_location() {
    let classes = point_classes(false);
    let schema = point_schema(None, None, None);
    let mut store = Store { objects: vec![] };
    let input = Value::Mapping(vec![(X, Value::Str(vec!['1']))]);
    let r = run(&schema, &classes, &mut store, &input, &no_extra());
    match r {
        Err(ValError::LineErrors(ls)) => {
            assert_eq!(ls.len(), 1);
            assert!(matches!(ls[0].kind, ErrorKind::MissingField));
            assert_eq!(ls[0].location, vec![Y]);
        }
        _ => panic!("expected a line error"),
    }
}

#[test]
fn sibling_field_errors_are_aggregated() {
    let classes = point_classes(false);
    let schema = point_schema(None, None, None);
    let mut store = Store { objects: vec![] };
    let input = Value::Mapping(vec![
        (X, Value::Null),
        (Y, Value::Str(vec!['a'])),
    ]);
    let r = run(&schema, &classes, &mut store, &input, &no_extra());
    match r {
        Err(ValError::LineErrors(ls)) => {
            assert_eq!(ls.len(), 2);
            assert!(matches!(ls[0].kind, ErrorKind::IntType));
            assert_eq!(ls[0].location, vec![X]);
            assert!(matches!(ls[1].kind, ErrorKind::IntParsing));
            assert_eq!(ls[1].location, vec![Y]);
        }
        _ => panic!("expected line errors"),
    }
}

#[test]
fn hook_failure_becomes_a_validation_error() {
    let classes = point_classes(true);
    let schema = point_schema(None, None, Some(HOOK));
    let mut store = Store { objects: vec![] };
    let r = run(&schema, &classes, &mut store, &point_input(), &no_extra());
    match r {
        Err(ValError::LineErrors(ls)) => {
            assert!(matches!(ls[0].kind, ErrorKind::PostInitFailure));
        }
        _ => panic!("expected a line error"),
    }
}

#[test]
fn hook_success_keeps_the_instance() {
    let classes = point_classes(false);
    let schema = point_schema(None, None, Some(HOOK));
    let mut store = Store { objects: vec![] };
    let r = run(&schema, &classes, &mut store, &point_input(), &no_extra());
    assert!(matches!(r, Ok(Value::Instance(0))));
}

fn node_world() -> (Classes, Vec<CombinedValidator>) {
    // a self-referential model: Node { next: Nullable(Node) }
    let classes = Classes {
        defs: vec![ClassDef {
            name: NODE,
            post_init_fails: false,
        }],
    };
    let def = Schema::Model(ModelSchema {
        cls: 0,
        body: Box::new(Schema::Fields(vec![FieldSchema {
            name: NEXT,
            schema: Schema::Nullable(Box::new(Schema::SlotRef(0))),
        }])),
        config: None,
        strict: None,
        post_init: None,
    });
    let v = build_validator(&def, None, &classes, 1).unwrap();
    (classes, vec![v])
}

fn nested_nodes(depth: usize) -> Value {
    let mut v = Value::Null;
    for _ in 0..depth {
        v = Value::Mapping(vec![(NEXT, v)]);
    }
    v
}

#[test]
fn shallow_self_reference_validates() {
    let (classes, slots) = node_world();
    let mut store = Store { objects: vec![] };
    let mut guard = RecursionGuard::new(1);
    let r = slots[0].validate(
        &mut store,
        &classes,
        &nested_nodes(2),
        &no_extra(),
        &slots,
        &mut guard,
    );
    assert!(matches!(r, Ok(Value::Instance(_))));
}

#[test]
fn deep_self_reference_hits_the_recursion_guard() {
    // nesting past the schema's recursion limit fails with the
    // recursion condition instead of hanging
    let (classes, slots) = node_world();
    let mut store = Store { objects: vec![] };
    let mut guard = RecursionGuard::new(1);
    let r = slots[0].validate(
        &mut store,
        &classes,
        &nested_nodes(3),
        &no_extra(),
        &slots,
        &mut guard,
    );
    match r {
        Err(ValError::LineErrors(ls)) => {
            assert!(matches!(ls[0].kind, ErrorKind::RecursionLoop));
            assert_eq!(ls[0].location, vec![NEXT, NEXT]);
        }
        _ => panic!("expected the recursion condition"),
    }
    // a failed validation releases its guard entries, so a fresh
    // sibling call on the same guard still succeeds
    let r2 = slots[0].validate(
        &mut store,
        &classes,
        &nested_nodes(1),
        &no_extra(),
        &slots,
        &mut guard,
    );
    assert!(matches!(r2, Ok(Value::Instance(_))));
}

#[test]
fn ask_reports_the_fields_set_capability() {
    let classes = point_classes(false);
    let body = Schema::Fields(vec![]);
    let v = build_validator(&body, None, &classes, 0).unwrap();
    assert!(v.ask(&Question::ReturnFieldsSet));
    let leaf = build_validator(&Schema::Int, None, &classes, 0).unwrap();
    assert!(!leaf.ask(&Question::ReturnFieldsSet));
}

#[test]
fn build_rejects_unknown_class_and_slot() {
    let classes = point_classes(false);
    let bad_class = Schema::Model(ModelSchema {
        cls: 5,
        body: Box::new(Schema::Fields(vec![])),
        config: None,
        strict: None,
        post_init: None,
    });
    assert!(matches!(
        build_validator(&bad_class, None, &classes, 0),
        Err(BuildError::UnknownClass { class: 5 })
    ));
    assert!(matches!(
        build_validator(&Schema::SlotRef(3), None, &classes, 0),
        Err(BuildError::UnknownSlot { slot: 3 })
    ));
}
