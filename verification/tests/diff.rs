use hearth_web::diff::compute_unified_diff;

const HEAD: &str = "--- hearth.yaml (current)\n+++ hearth.yaml (proposed)\n";

#[test]
fn same_texts_have_no_diff() {
    assert_eq!(compute_unified_diff("", ""), "");
    assert_eq!(compute_unified_diff("a\nb\n", "a\nb\n"), "");
    assert_eq!(compute_unified_diff("a\nb", "a\r\nb\n"), "");
}

#[test]
fn a_changed_line() {
    assert_eq!(
        compute_unified_diff("a\nb\nc\n", "a\nx\nc\n"),
        format!("{HEAD}@@ -1,3 +1,3 @@\n a\n+x\n-b\n c\n")
    );
}

#[test]
fn an_added_and_a_removed_line() {
    assert_eq!(compute_unified_diff("", "a\n"), format!("{HEAD}@@ -1,0 +1,1 @@\n+a\n"));
    assert_eq!(compute_unified_diff("a\n", ""), format!("{HEAD}@@ -1,1 +1,0 @@\n-a\n"));
}

fn sides(diff: &str) -> (Vec<String>, Vec<String>) {
    let mut old = Vec::new();
    let mut new = Vec::new();
    for line in diff.lines().skip(2) {
        if line.starts_with("@@") {
            continue;
        }
        let (sign, rest) = line.split_at(1);
        if sign != "+" {
            old.push(rest.to_string());
        }
        if sign != "-" {
            new.push(rest.to_string());
        }
    }
    (old, new)
}

#[test]
fn hunks_show_parts_of_both_texts() {
    let old: Vec<String> = (0..40).map(|i| format!("line {i}")).collect();
    let mut new = old.clone();
    new[3] = "changed".to_string();
    new.remove(20);
    new.insert(35, "inserted".to_string());
    let diff = compute_unified_diff(&old.join("\n"), &new.join("\n"));
    let (o, n) = sides(&diff);
    assert!(o.iter().all(|l| old.contains(l)));
    assert!(n.iter().all(|l| new.contains(l)));
    assert!(o.contains(&"line 3".to_string()) && o.contains(&"line 20".to_string()));
    assert!(n.contains(&"changed".to_string()) && n.contains(&"inserted".to_string()));
    assert!(!o.contains(&"line 10".to_string()));
    assert_eq!(diff.matches("@@ -").count(), 3);
}

#[test]
fn short_texts_are_shown_whole() {
    let (o, n) = sides(&compute_unified_diff("a\nb\nc", "b\nc\nd"));
    assert_eq!(o, ["a", "b", "c"]);
    assert_eq!(n, ["b", "c", "d"]);
}

#[test]
fn hunks_have_three_lines_of_context_at_most() {
    let old: Vec<String> = (0..60).map(|i| format!("line {i}")).collect();
    let mut new = old.clone();
    new[10] = "changed".to_string();
    new.remove(30);
    new.insert(50, "inserted".to_string());
    let diff = compute_unified_diff(&old.join("\n"), &new.join("\n"));
    let mut hunks: Vec<Vec<&str>> = Vec::new();
    for line in diff.lines().skip(2) {
        if line.starts_with("@@") {
            hunks.push(Vec::new());
        } else {
            hunks.last_mut().unwrap().push(line);
        }
    }
    assert_eq!(hunks.len(), 3);
    for h in hunks {
        assert_eq!(h.iter().position(|l| !l.starts_with(' ')), Some(3));
        assert_eq!(h.iter().rev().position(|l| !l.starts_with(' ')), Some(3));
    }
}
