use filesync::app::{list_local, LocalDirItem, LocalEntry, LocalMeta};
use filesync::ssh::{home_dir_from_output, is_dot_name, list_dir_entries, RemoteDirItem};

fn item(name: &str, meta: Option<LocalMeta>) -> LocalDirItem {
    LocalDirItem { name: name.to_string(), path: format!("/d/{}", name), meta }
}

fn file(len: u64) -> Option<LocalMeta> {
    Some(LocalMeta { is_dir: false, is_file: true, len })
}

fn dir() -> Option<LocalMeta> {
    Some(LocalMeta { is_dir: true, is_file: false, len: 4096 })
}

fn names(v: &[LocalEntry]) -> Vec<String> {
    v.iter().map(|e| e.name.clone()).collect()
}

#[test]
fn local_listing_puts_dirs_first_then_names() {
    let items = vec![item("zeta.txt", file(1)), item("Alpha", dir()), item("beta.txt", file(2)), item("gamma", dir())];
    let r = list_local(items, false);
    assert_eq!(names(&r), vec!["Alpha", "gamma", "beta.txt", "zeta.txt"]);
    assert_eq!(r[0].path, "/d/Alpha");
    assert!(r[0].is_dir);
    assert_eq!(r[0].size, 0);
    assert_eq!(r[2].size, 2);
}

#[test]
fn hidden_names_are_dropped_unless_shown() {
    let items = vec![item(".git", dir()), item("src", dir()), item(".env", file(3))];
    assert_eq!(names(&list_local(items.clone(), false)), vec!["src"]);
    assert_eq!(names(&list_local(items, true)), vec![".git", "src", ".env"]);
}

#[test]
fn items_without_metadata_are_dropped() {
    let items = vec![item("broken", None), item("ok", file(9))];
    assert_eq!(names(&list_local(items, true)), vec!["ok"]);
}

#[test]
fn only_regular_files_report_a_size() {
    let items = vec![item("dev", Some(LocalMeta { is_dir: false, is_file: false, len: 77 }))];
    let r = list_local(items, false);
    assert_eq!(r[0].size, 0);
    assert!(!r[0].is_dir);
}

#[test]
fn equal_keys_keep_their_order() {
    let items = vec![item("README", file(1)), item("b", file(1)), item("readme", file(2)), item("ReadMe", file(3))];
    let r = list_local(items, false);
    assert_eq!(names(&r), vec!["b", "README", "readme", "ReadMe"]);
}

#[test]
fn empty_listing() {
    assert!(list_local(vec![], false).is_empty());
}

fn ritem(name: Option<&str>, is_dir: bool, size: Option<u64>) -> RemoteDirItem {
    RemoteDirItem {
        name: name.map(|n| n.to_string()),
        path: format!("/srv/{}", name.unwrap_or("")),
        is_dir,
        size,
    }
}

#[test]
fn remote_listing_drops_links_and_nameless_items() {
    let items = vec![
        ritem(Some("."), true, None),
        ritem(Some(".."), true, None),
        ritem(None, false, Some(5)),
        ritem(Some("b.log"), false, Some(10)),
        ritem(Some("Apps"), true, None),
        ritem(Some(".hidden"), false, None),
    ];
    let r = list_dir_entries(items);
    let got: Vec<(String, bool, u64)> = r.iter().map(|e| (e.name.clone(), e.is_dir, e.size)).collect();
    assert_eq!(
        got,
        vec![("Apps".to_string(), true, 0), (".hidden".to_string(), false, 0), ("b.log".to_string(), false, 10)]
    );
    assert_eq!(r[0].path, "/srv/Apps");
}

#[test]
fn dot_names() {
    assert!(is_dot_name("."));
    assert!(is_dot_name(".."));
    assert!(!is_dot_name("..."));
    assert!(!is_dot_name(".a"));
    assert!(!is_dot_name(""));
}

#[test]
fn home_dir_output() {
    assert_eq!(home_dir_from_output("/home/alice\n"), "/home/alice");
    assert_eq!(home_dir_from_output("  \n"), "/");
    assert_eq!(home_dir_from_output(""), "/");
}

#[test]
fn listing_without_dot_files_is_the_full_listing_filtered() {
    let items = vec![
        item("b", file(1)),
        item(".cache", dir()),
        item("A", dir()),
        item(".profile", file(2)),
        item("c", file(3)),
        item("broken", None),
    ];
    let all = list_local(items.clone(), true);
    let visible = list_local(items, false);
    let filtered: Vec<String> = names(&all).into_iter().filter(|n| !n.starts_with('.')).collect();
    assert_eq!(names(&visible), filtered);
    assert!(visible.iter().all(|e| !e.name.starts_with('.')));
}

#[test]
fn home_dir_trims_unicode_white_space_as_str_trim_does() {
    for out in ["\u{3000}/home/alice\u{a0}\r\n", "\t/srv/x\u{2028}", "\u{85}\u{200a}", "/a b\u{200b}", ""] {
        let expected = if out.trim().is_empty() { "/" } else { out.trim() };
        assert_eq!(home_dir_from_output(out), expected);
    }
}
