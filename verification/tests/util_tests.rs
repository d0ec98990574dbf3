use filesync::util::{increasing_members, selected_entries, sort_dir_first, sort_name_mixed, sort_size_desc};
use std::cmp::Ordering;
use std::collections::HashSet;

#[test]
fn dirs_sort_before_files() {
    assert_eq!(sort_dir_first(true, "zeta", false, "alpha"), Ordering::Less);
    assert_eq!(sort_dir_first(false, "alpha", true, "zeta"), Ordering::Greater);
}

#[test]
fn same_kind_sorts_by_lowercased_name() {
    assert_eq!(sort_dir_first(false, "Beta", false, "alpha"), Ordering::Greater);
    assert_eq!(sort_dir_first(true, "alpha", true, "Beta"), Ordering::Less);
    assert_eq!(sort_dir_first(false, "Same", false, "same"), Ordering::Equal);
}

#[test]
fn names_compare_ignoring_case() {
    assert_eq!(sort_name_mixed("Apple", "banana"), Ordering::Less);
    assert_eq!(sort_name_mixed("README", "readme"), Ordering::Equal);
    assert_eq!(sort_name_mixed("b", "A"), Ordering::Greater);
}

#[test]
fn prefix_sorts_first() {
    assert_eq!(sort_name_mixed("abc", "abcd"), Ordering::Less);
    assert_eq!(sort_name_mixed("abcd", "abc"), Ordering::Greater);
    assert_eq!(sort_name_mixed("", "a"), Ordering::Less);
}

#[test]
fn larger_sizes_sort_first() {
    assert_eq!(sort_size_desc(10, "a", 5, "b"), Ordering::Less);
    assert_eq!(sort_size_desc(5, "a", 10, "b"), Ordering::Greater);
    assert_eq!(sort_size_desc(7, "B", 7, "a"), Ordering::Greater);
    assert_eq!(sort_size_desc(7, "a", 7, "A"), Ordering::Equal);
}

#[test]
fn comparators_are_antisymmetric_on_samples() {
    let names = ["a", "B", "c", "dd", "Dd", "", "é"];
    for x in names.iter() {
        for y in names.iter() {
            for dx in [true, false] {
                for dy in [true, false] {
                    assert_eq!(sort_dir_first(dx, x, dy, y), sort_dir_first(dy, y, dx, x).reverse());
                }
            }
            assert_eq!(sort_name_mixed(x, y), sort_name_mixed(y, x).reverse());
        }
    }
}

#[test]
fn nothing_selected_picks_cursor_entry() {
    let entries = vec!["a", "b", "c"];
    let none: HashSet<usize> = HashSet::new();
    assert_eq!(selected_entries(&entries, 1, &none), vec![&"b"]);
    assert!(selected_entries(&entries, 3, &none).is_empty());
    let empty: Vec<&str> = vec![];
    assert!(selected_entries(&empty, 0, &none).is_empty());
}

#[test]
fn selection_comes_in_index_order() {
    let entries = vec!["a", "b", "c", "d"];
    let mut sel = HashSet::new();
    sel.insert(3);
    sel.insert(0);
    sel.insert(2);
    assert_eq!(selected_entries(&entries, 1, &sel), vec![&"a", &"c", &"d"]);
}

#[test]
fn selection_past_the_end_is_ignored() {
    let entries = vec!["a", "b"];
    let mut sel = HashSet::new();
    sel.insert(1);
    sel.insert(7);
    assert_eq!(selected_entries(&entries, 0, &sel), vec![&"b"]);
}

#[test]
fn members_are_sorted() {
    let mut sel = HashSet::new();
    for i in [9usize, 2, 5, 0, 7] {
        sel.insert(i);
    }
    assert_eq!(increasing_members(&sel), vec![0, 2, 5, 7, 9]);
}
