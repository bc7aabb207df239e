use altc::listing::{check_folder, listing};

fn item(name: &str, is_dir: bool, len: u64) -> (String, String, bool, u64) {
    (name.to_string(), format!("/games/{name}"), is_dir, len)
}

#[test]
fn folders_come_first_then_names_ignoring_case() {
    let got = listing(vec![
        item("zeta.exe", false, 10),
        item("Beta", true, 4096),
        item(".hidden", true, 4096),
        item("alpha", true, 4096),
        item("Alpha.txt", false, 3),
    ]);
    let names: Vec<&str> = got.iter().map(|e| e.name.as_str()).collect();
    assert_eq!(names, vec!["alpha", "Beta", "Alpha.txt", "zeta.exe"]);
    assert_eq!(got[0].size, None);
    assert_eq!(got[2].size, Some(3));
    assert_eq!(got[3].path, "/games/zeta.exe");
}

#[test]
fn names_equal_but_for_case_keep_the_folders_order() {
    let got = listing(vec![item("b", false, 1), item("B", false, 2), item("a", false, 3)]);
    let names: Vec<&str> = got.iter().map(|e| e.name.as_str()).collect();
    assert_eq!(names, vec!["a", "b", "B"]);
}

#[test]
fn only_a_folder_can_be_browsed() {
    assert!(check_folder(true).is_ok());
    let e = check_folder(false).unwrap_err();
    assert_eq!((e.0, e.1.as_str()), (400, "not a directory"));
}
