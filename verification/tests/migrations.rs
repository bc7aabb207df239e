use altc::migrations::{migrations, pending, statements};

#[test]
fn is_idempotent() {
    let all = migrations();
    let names: Vec<&str> = all.iter().map(|m| m.0).collect();
    let first = pending(&names, &vec![]);
    assert_eq!(first, (0..all.len()).collect::<Vec<usize>>());
    let recorded: Vec<String> = first.iter().map(|i| names[*i].to_string()).collect();
    assert!(pending(&names, &recorded).is_empty());
}

#[test]
fn upgrades_an_existing_database_without_losing_rows() {
    // A database at the baseline only runs what came after it.
    let all = migrations();
    let names: Vec<&str> = all.iter().map(|m| m.0).collect();
    assert_eq!(pending(&names, &vec!["0001_baseline".to_string()]), vec![1, 2, 3, 4, 5, 6]);
}

#[test]
fn statements_are_cut_at_semicolons_and_blank_ones_dropped() {
    assert_eq!(statements("A;  ;B;\n"), vec!["A".to_string(), "B".to_string()]);
    let baseline = statements(migrations()[0].1);
    assert_eq!(baseline.len(), 6);
    assert!(baseline[0].trim().starts_with("CREATE TABLE IF NOT EXISTS users"));
}

#[test]
fn migrations_are_ordered_and_uniquely_named() {
    let all = migrations();
    assert_eq!(all[0].0, "0001_baseline");
    assert_eq!(all[6].0, "0007_per_title_settings");
    for w in all.windows(2) {
        assert!(w[0].0 < w[1].0);
    }
}
