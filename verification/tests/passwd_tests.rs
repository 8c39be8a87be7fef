use cypat::parse_passwd_entry;

#[test]
fn full_passwd_line_parses() {
    let rec = parse_passwd_entry("alice:x:1000:1000:Alice A.:/home/alice:/bin/bash").unwrap();
    assert_eq!(rec.username, "alice");
    assert!(rec.password_in_shadow);
    assert_eq!(rec.uid, 1000);
    assert_eq!(rec.gid, 1000);
    assert_eq!(rec.gecos, "Alice A.");
    assert_eq!(rec.home_dir, "/home/alice");
    assert_eq!(rec.shell, "/bin/bash");
}

#[test]
fn password_marker_other_than_x_reads_as_not_shadowed() {
    let rec = parse_passwd_entry("bob:*:0:0::/root:/bin/sh").unwrap();
    assert_eq!(rec.username, "bob");
    assert!(!rec.password_in_shadow);
    assert_eq!(rec.uid, 0);
    assert_eq!(rec.gid, 0);
    assert_eq!(rec.gecos, "");
}

#[test]
fn extra_fields_are_ignored() {
    let rec = parse_passwd_entry("c:x:1:2:g:h:s:extra:more").unwrap();
    assert_eq!(rec.username, "c");
    assert_eq!(rec.uid, 1);
    assert_eq!(rec.gid, 2);
    assert_eq!(rec.shell, "s");
}

#[test]
fn short_line_parses_to_nothing() {
    assert!(parse_passwd_entry("a:x:1:2:g:h").is_none());
    assert!(parse_passwd_entry("").is_none());
}

#[test]
fn bad_uid_or_gid_parses_to_nothing() {
    assert!(parse_passwd_entry("a:x:nine:2:g:h:s").is_none());
    assert!(parse_passwd_entry("a:x:1:-2:g:h:s").is_none());
    assert!(parse_passwd_entry("a:x::2:g:h:s").is_none());
    // one past the largest fitting uid
    assert!(parse_passwd_entry("a:x:4294967296:2:g:h:s").is_none());
    let rec = parse_passwd_entry("a:x:4294967295:2:g:h:s").unwrap();
    assert_eq!(rec.uid, u32::MAX);
}
