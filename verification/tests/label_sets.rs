use clv_provider::labels::Labels;

fn s(text: &str) -> String {
    text.to_string()
}

#[test]
fn a_new_set_is_empty() {
    let labels = Labels::new();
    assert_eq!(labels.len(), 0);
    assert!(labels.pairs().is_empty());
    assert_eq!(labels.get("job"), None);
}

#[test]
fn insert_then_get() {
    let mut labels = Labels::new();
    assert_eq!(labels.insert(s("job"), s("clv")), None);
    assert_eq!(labels.insert(s("instance"), s("a")), None);
    assert_eq!(labels.len(), 2);
    assert_eq!(labels.get("job"), Some(&s("clv")));
    assert_eq!(labels.get("instance"), Some(&s("a")));
    assert_eq!(labels.get("other"), None);
}

#[test]
fn insert_replaces_and_returns_the_old_value() {
    let mut labels = Labels::new();
    labels.insert(s("job"), s("one"));
    labels.insert(s("instance"), s("a"));
    assert_eq!(labels.insert(s("job"), s("two")), Some(s("one")));
    assert_eq!(labels.len(), 2);
    assert_eq!(labels.get("job"), Some(&s("two")));
    assert_eq!(labels.get("instance"), Some(&s("a")));
}

#[test]
fn remove_takes_one_label_out() {
    let mut labels = Labels::new();
    labels.insert(s("a"), s("1"));
    labels.insert(s("b"), s("2"));
    labels.insert(s("c"), s("3"));
    assert_eq!(labels.remove("b"), Some(s("2")));
    assert_eq!(labels.len(), 2);
    assert_eq!(labels.get("a"), Some(&s("1")));
    assert_eq!(labels.get("b"), None);
    assert_eq!(labels.get("c"), Some(&s("3")));
    assert_eq!(labels.remove("b"), None);
    assert_eq!(labels.len(), 2);
}

#[test]
fn names_are_case_sensitive() {
    let mut labels = Labels::new();
    labels.insert(s("Job"), s("upper"));
    labels.insert(s("job"), s("lower"));
    assert_eq!(labels.len(), 2);
    assert_eq!(labels.get("Job"), Some(&s("upper")));
    assert_eq!(labels.get("job"), Some(&s("lower")));
    assert_eq!(labels.get("JOB"), None);
}

#[test]
fn pairs_hold_each_name_once() {
    let mut labels = Labels::new();
    labels.insert(s("a"), s("1"));
    labels.insert(s("b"), s("2"));
    labels.insert(s("a"), s("3"));
    let mut pairs: Vec<(String, String)> =
        labels.pairs().iter().map(|(k, v)| (k.clone(), v.clone())).collect();
    pairs.sort();
    assert_eq!(pairs, vec![(s("a"), s("3")), (s("b"), s("2"))]);
}
