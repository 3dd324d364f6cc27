use spellbook::compile::compile_source;
use spellbook::registry::{callables, register_all, table_manas, Arg, Reading, Shape};

fn names_of(text: &str) -> Vec<(String, Shape, bool)> {
    let ms = compile_source(text).unwrap();
    callables(&ms[0])
        .into_iter()
        .map(|c| (c.name, c.shape, c.defensive))
        .collect()
}

#[test]
fn offensive_magic_names() {
    assert_eq!(
        names_of("register bolt"),
        vec![
            ("bolt".to_string(), Shape::Single, false),
            ("def_bolt".to_string(), Shape::Single, true),
            ("t_bolt".to_string(), Shape::Table, false),
            ("t_def_bolt".to_string(), Shape::Table, true),
        ]
    );
}

#[test]
fn always_defensive_magic_names() {
    assert_eq!(
        names_of("register wall always_def true"),
        vec![
            ("wall".to_string(), Shape::Table, true),
            ("at_wall".to_string(), Shape::Table, false),
            ("t_wall".to_string(), Shape::Table, true),
            ("t_at_wall".to_string(), Shape::Table, false),
        ]
    );
}

#[test]
fn non_integer_argument_gets_usage() {
    let ms = compile_source("register bolt").unwrap();
    let cs = callables(&ms[0]);
    let r = cs[0].single_call(&vec![Arg::Other, Arg::Int(10)]);
    assert_eq!(r, Err("Use bolt(<accuracy>, <mana>)".to_string()));
    let r = cs[1].single_call(&vec![Arg::Int(1)]);
    assert_eq!(r, Err("Use def_bolt(<accuracy>, <mana>)".to_string()));
    assert_eq!(cs[0].single_call(&vec![Arg::Int(3), Arg::Int(10)]), Ok(Reading { accuracy: 3, mana: 10 }));
}

#[test]
fn table_usage_messages() {
    let ms = compile_source("register bolt register wall always_def true").unwrap();
    let a = callables(&ms[0]);
    let b = callables(&ms[1]);
    assert_eq!(a[2].usage(), "Use t_bolt(<start>, <end>, <?step>, <?accuracy>)");
    assert_eq!(a[3].usage(), "Use t_def_bolt(<start>, <end>, <?step>, <?accuracy>)");
    assert_eq!(b[0].usage(), "Use t_at_wall(<start>, <end>, <?step>, <?accuracy>)");
    assert_eq!(b[1].usage(), "Use t_wall(<start>, <end>, <?step>, <?accuracy>)");
}

#[test]
fn table_of_three_rows() {
    let ms = compile_source("register bolt table_addon 5").unwrap();
    let cs = callables(&ms[0]);
    let plan = cs[2].table_call(&vec![Arg::Int(1), Arg::Int(3)]).unwrap();
    assert_eq!(plan.manas, vec![1, 2, 3]);
    assert_eq!(plan.accuracy, 15);
}

#[test]
fn table_with_step_and_accuracy() {
    let ms = compile_source("register bolt").unwrap();
    let cs = callables(&ms[0]);
    let plan = cs[3].table_call(&vec![Arg::Int(1), Arg::Int(10), Arg::Int(3)]).unwrap();
    assert_eq!(plan.manas, vec![1, 4, 7, 10]);
    assert_eq!(plan.accuracy, 10);
    let plan = cs[3]
        .table_call(&vec![Arg::Int(0), Arg::Int(5), Arg::Int(2), Arg::Int(42)])
        .unwrap();
    assert_eq!(plan.manas, vec![0, 2, 4]);
    assert_eq!(plan.accuracy, 42);
}

#[test]
fn table_malformed_calls() {
    let ms = compile_source("register bolt").unwrap();
    let cs = callables(&ms[0]);
    let usage = "Use t_bolt(<start>, <end>, <?step>, <?accuracy>)".to_string();
    assert_eq!(cs[2].table_call(&vec![Arg::Int(1)]).unwrap_err(), usage);
    assert_eq!(cs[2].table_call(&vec![Arg::Int(1); 5]).unwrap_err(), usage);
    assert_eq!(cs[2].table_call(&vec![Arg::Int(1), Arg::Other]).unwrap_err(), usage);
    assert_eq!(cs[2].table_call(&vec![Arg::Int(1), Arg::Int(4), Arg::Int(0)]).unwrap_err(), usage);
}

#[test]
fn table_default_accuracy_overflow_is_rejected() {
    let ms = compile_source("register bolt table_addon 9223372036854775800").unwrap();
    let cs = callables(&ms[0]);
    assert!(cs[2].table_call(&vec![Arg::Int(1), Arg::Int(2)]).is_err());
}

#[test]
fn table_ranges() {
    assert_eq!(table_manas(5, 4, 1), Vec::<i64>::new());
    assert_eq!(table_manas(4, 4, 1), vec![4]);
    assert_eq!(table_manas(i64::MAX - 1, i64::MAX, 5), vec![i64::MAX - 1]);
    assert_eq!(table_manas(-3, 3, 3), vec![-3, 0, 3]);
}

#[test]
fn registry_of_all_magics_in_order() {
    let ms = compile_source("register a register b always_def true").unwrap();
    let all = register_all(&ms);
    let names: Vec<String> = all.iter().map(|c| c.name.clone()).collect();
    assert_eq!(names, vec!["a", "def_a", "t_a", "t_def_a", "b", "at_b", "t_b", "t_at_b"]);
    assert_eq!(all[5].magic.name, "b");
}
