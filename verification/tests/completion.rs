use sherlock::completion::{completion_path, completion_remainder, pick_completion};
use sherlock::order::sort_strings;

fn names(v: &[&str]) -> Vec<String> {
    v.iter().map(|s| s.to_string()).collect()
}

#[test]
fn documented_completion_example() {
    // input: "~/Doc", match: "Documents/" -> "uments/"
    assert_eq!(completion_path("~/Doc", "/home/u").as_deref(), Some("/home/u/Doc"));
    let listing = names(&["Downloads", "Documents", ".Doc"]);
    assert_eq!(pick_completion(listing, "Doc", 0).as_deref(), Some("Documents"));
    assert_eq!(completion_remainder("~/Doc", "Documents", true).as_deref(), Some("uments/"));
}

#[test]
fn completion_path_forms() {
    assert_eq!(completion_path("", "/home/u"), None);
    assert_eq!(completion_path("/etc/x", "/home/u").as_deref(), Some("/etc/x"));
    assert_eq!(completion_path("Documents/", "/home/u").as_deref(), Some("/home/u/Documents/"));
    assert_eq!(completion_path("~", "/home/u").as_deref(), Some("/home/u"));
}

#[test]
fn pick_completion_cycles_through_sorted_matches() {
    let listing = names(&["beta", "alpha", "alps", ".alpha", "gamma"]);
    assert_eq!(pick_completion(listing.clone(), "al", 0).as_deref(), Some("alpha"));
    assert_eq!(pick_completion(listing.clone(), "al", 1).as_deref(), Some("alps"));
    assert_eq!(pick_completion(listing.clone(), "al", 2).as_deref(), Some("alpha"));
    assert_eq!(pick_completion(listing.clone(), "", 2).as_deref(), Some("beta"));
    assert_eq!(pick_completion(listing.clone(), "", 3).as_deref(), Some("gamma"));
    assert_eq!(pick_completion(listing, "z", 0), None);
}

#[test]
fn completion_remainder_after_last_slash() {
    assert_eq!(completion_remainder("/usr/lo", "local", true).as_deref(), Some("cal/"));
    assert_eq!(completion_remainder("Documents/", "notes.txt", false).as_deref(), Some("notes.txt"));
    assert_eq!(completion_remainder("abc", "xyz", false), None);
}

#[test]
fn strings_sort_by_code_point() {
    let sorted = sort_strings(names(&["b", "B", "a", "\u{e9}", "ab", "a"]));
    assert_eq!(sorted, names(&["B", "a", "a", "ab", "b", "\u{e9}"]));
}
