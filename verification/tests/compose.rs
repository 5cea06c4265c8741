//! The configuration composer and the integer coercion, on concrete
//! values.

use model_engine::config::{
    build_config, Config, ConfigValue, CONFIG_CHOOSE_PRIORITY, CONFIG_MERGE_PRIORITY,
};
use model_engine::errors::BuildError;
use model_engine::tree::parse_int;

const OPT_A: u64 = 10;
const OPT_B: u64 = 11;

fn cfg(entries: &[(u64, ConfigValue)]) -> Config {
    let mut c = Config::new();
    for (k, v) in entries {
        assert!(c.insert(*k, *v));
    }
    c
}

#[test]
fn compose_parent_choose_priority_wins_outright() {
    // parent {choose_priority: 1} vs child {choose_priority: 0}:
    // the parent wins outright and the child's other keys vanish
    let p = cfg(&[
        (CONFIG_CHOOSE_PRIORITY, ConfigValue::Int(1)),
        (OPT_A, ConfigValue::Int(7)),
    ]);
    let c = cfg(&[
        (CONFIG_CHOOSE_PRIORITY, ConfigValue::Int(0)),
        (OPT_B, ConfigValue::Int(9)),
    ]);
    let r = build_config(Some(&p), Some(&c)).unwrap().unwrap();
    assert!(matches!(r.get(OPT_A), Some(ConfigValue::Int(7))));
    assert!(r.get(OPT_B).is_none());
    assert!(matches!(
        r.get(CONFIG_CHOOSE_PRIORITY),
        Some(ConfigValue::Int(1))
    ));
}

#[test]
fn compose_child_choose_priority_wins_outright() {
    let p = cfg(&[(OPT_A, ConfigValue::Int(7))]);
    let c = cfg(&[
        (CONFIG_CHOOSE_PRIORITY, ConfigValue::Int(2)),
        (OPT_B, ConfigValue::Int(9)),
    ]);
    let r = build_config(Some(&p), Some(&c)).unwrap().unwrap();
    assert!(r.get(OPT_A).is_none());
    assert!(matches!(r.get(OPT_B), Some(ConfigValue::Int(9))));
}

#[test]
fn compose_lone_side_wins() {
    let p = cfg(&[(OPT_A, ConfigValue::Int(1))]);
    let r = build_config(Some(&p), None).unwrap().unwrap();
    assert!(matches!(r.get(OPT_A), Some(ConfigValue::Int(1))));

    let c = cfg(&[(OPT_B, ConfigValue::Int(2))]);
    let r = build_config(None, Some(&c)).unwrap().unwrap();
    assert!(matches!(r.get(OPT_B), Some(ConfigValue::Int(2))));

    assert!(build_config(None, None).unwrap().is_none());
}

#[test]
fn compose_tie_merges_child_into_parent() {
    // equal priorities everywhere: the child is merged into the
    // parent, and the parent's entries are not overwritten
    let p = cfg(&[(OPT_A, ConfigValue::Int(1))]);
    let c = cfg(&[(OPT_A, ConfigValue::Int(2)), (OPT_B, ConfigValue::Int(3))]);
    let r = build_config(Some(&p), Some(&c)).unwrap().unwrap();
    assert!(matches!(r.get(OPT_A), Some(ConfigValue::Int(1))));
    assert!(matches!(r.get(OPT_B), Some(ConfigValue::Int(3))));
}

#[test]
fn compose_child_merge_priority_wins() {
    // the strictly greater merge-priority keeps its own entries
    let p = cfg(&[
        (CONFIG_MERGE_PRIORITY, ConfigValue::Int(0)),
        (OPT_A, ConfigValue::Int(1)),
    ]);
    let c = cfg(&[
        (CONFIG_MERGE_PRIORITY, ConfigValue::Int(1)),
        (OPT_A, ConfigValue::Int(2)),
    ]);
    let r = build_config(Some(&p), Some(&c)).unwrap().unwrap();
    assert!(matches!(r.get(OPT_A), Some(ConfigValue::Int(2))));
}

#[test]
fn compose_rerun_same_pair_same_result() {
    // deterministic: running twice on the same inputs agrees
    let p = cfg(&[(OPT_A, ConfigValue::Int(1))]);
    let c = cfg(&[(OPT_B, ConfigValue::Int(2))]);
    let r1 = build_config(Some(&p), Some(&c)).unwrap().unwrap();
    let r2 = build_config(Some(&p), Some(&c)).unwrap().unwrap();
    assert_eq!(r1.get(OPT_A), r2.get(OPT_A));
    assert_eq!(r1.get(OPT_B), r2.get(OPT_B));
    assert_eq!(
        r1.get(CONFIG_MERGE_PRIORITY),
        r2.get(CONFIG_MERGE_PRIORITY)
    );
}

#[test]
fn compose_invalid_priority_is_an_error() {
    let p = cfg(&[(CONFIG_CHOOSE_PRIORITY, ConfigValue::Bool(true))]);
    let c = cfg(&[]);
    let r = build_config(Some(&p), Some(&c));
    assert!(matches!(
        r,
        Err(BuildError::InvalidPriority {
            key: CONFIG_CHOOSE_PRIORITY
        })
    ));
}

#[test]
fn parse_int_accepts_digit_runs() {
    assert_eq!(parse_int(&vec!['4', '2']), Some(42));
    assert_eq!(parse_int(&vec!['0']), Some(0));
    assert_eq!(
        parse_int(&vec![
            '9', '9', '9', '9', '9', '9', '9', '9', '9', '9', '9', '9', '9', '9', '9', '9', '9',
            '9',
        ]),
        Some(999999999999999999)
    );
}

#[test]
fn parse_int_rejects_everything_else() {
    assert_eq!(parse_int(&vec![]), None);
    assert_eq!(parse_int(&vec!['4', 'x']), None);
    assert_eq!(parse_int(&vec!['-', '1']), None);
    // nineteen digits never coerce
    assert_eq!(
        parse_int(&vec![
            '1', '0', '0', '0', '0', '0', '0', '0', '0', '0', '0', '0', '0', '0', '0', '0', '0',
            '0', '0',
        ]),
        None
    );
}
