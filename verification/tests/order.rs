use hearth_web::order;

fn owned(v: &[&str]) -> Vec<String> {
    v.iter().map(|s| s.to_string()).collect()
}

#[test]
fn sorting_orders_and_keeps_everything() {
    let given = owned(&["b", "a", "c", "a", "", "Z"]);
    let mut want = given.clone();
    want.sort();
    assert_eq!(order::sort_strings(given), want);
}

#[test]
fn sorted_sets_hold_each_text_once() {
    let given = owned(&["b", "a", "b", "c", "a"]);
    assert_eq!(order::dedup(&owned(&["a", "a", "b", "a"])), owned(&["a", "b", "a"]));
    assert_eq!(order::sort_dedup(given), owned(&["a", "b", "c"]));
    assert_eq!(order::sort_dedup(owned(&["c", "c", "b", "a"])), owned(&["a", "b", "c"]));
}

#[test]
fn subtraction_leaves_what_is_not_held() {
    let v = owned(&["a", "b", "c", "b"]);
    assert_eq!(order::subtract(&v, &owned(&["b", "x"])), owned(&["a", "c"]));
    assert_eq!(order::subtract(&v, &[].to_vec()), v);
    assert!(order::contains_text(&v, "c"));
    assert!(!order::contains_text(&v, "d"));
}
