use cypat::bytes_contain;
use cypat::errno;

#[test]
fn byte_search_finds_a_middle_occurrence() {
    let h = b"abcde".to_vec();
    assert!(bytes_contain(&h, &b"bcd".to_vec()));
    assert!(bytes_contain(&h, &b"abcde".to_vec()));
    assert!(!bytes_contain(&h, &b"xyz".to_vec()));
}

#[test]
fn byte_search_finds_occurrences_at_the_edges() {
    let h = b"package-listing".to_vec();
    assert!(bytes_contain(&h, &b"package".to_vec()));
    assert!(bytes_contain(&h, &b"listing".to_vec()));
    assert!(!bytes_contain(&h, &b"listings".to_vec()));
}

#[test]
fn byte_search_backtracks_over_partial_matches() {
    let h = b"aaab".to_vec();
    assert!(bytes_contain(&h, &b"aab".to_vec()));
    assert!(!bytes_contain(&h, &b"aabb".to_vec()));
}

#[test]
fn empty_needle_occurs_everywhere() {
    assert!(bytes_contain(&b"abc".to_vec(), &Vec::new()));
    assert!(bytes_contain(&Vec::new(), &Vec::new()));
}

#[test]
fn needle_longer_than_haystack_never_occurs() {
    assert!(!bytes_contain(&b"ab".to_vec(), &b"abc".to_vec()));
    assert!(!bytes_contain(&Vec::new(), &b"a".to_vec()));
}

#[test]
fn errno_reports_a_code() {
    // nothing failed: the code is whatever the OS last recorded, an integer
    let _ = errno();
}

#[test]
fn name_search_finds_exact_members_only() {
    let list = vec!["alice".to_string(), "bob".to_string()];
    assert!(cypat::list_contains(&list, &"bob".to_string()));
    assert!(cypat::list_contains(&list, &"alice".to_string()));
    assert!(!cypat::list_contains(&list, &"bo".to_string()));
    assert!(!cypat::list_contains(&list, &"carol".to_string()));
    assert!(!cypat::list_contains(&Vec::new(), &"bob".to_string()));
}

#[test]
fn refusal_phrase_names_the_user() {
    assert_eq!(
        cypat::sudo_refusal_phrase("mallory"),
        "User mallory is not allowed to run sudo"
    );
}
