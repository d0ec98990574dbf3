use filesync::login::{is_auth_error, lookup_target};
use filesync::store::{HostEntry, HostStore};

fn store() -> HostStore {
    let mut s = HostStore::new();
    s.upsert("muse", "armo10220", "pw1");
    s.upsert("root", "backup.example.org", "pw2");
    s
}

#[test]
fn upsert_then_get() {
    let mut s = HostStore::new();
    assert!(s.get("a", "b").is_none());
    s.upsert("a", "b", "secret");
    let e = s.get("a", "b").unwrap();
    assert_eq!(e.user, "a");
    assert_eq!(e.host, "b");
    assert_eq!(e.password, "secret");
    assert!(s.get("a", "c").is_none());
}

#[test]
fn upsert_replaces_password() {
    let mut s = store();
    s.upsert("muse", "armo10220", "new");
    assert_eq!(s.get("muse", "armo10220").unwrap().password, "new");
    assert_eq!(s.pairs().len(), 2);
}

#[test]
fn insert_by_key_keeps_entry_fields() {
    let mut s = HostStore::new();
    s.insert(
        "alias".to_string(),
        HostEntry { user: "u".to_string(), host: "h".to_string(), password: "p".to_string() },
    );
    assert!(s.get("u", "h").is_none());
    assert_eq!(s.find_partial("alias").unwrap().host, "h");
    let pairs = s.pairs();
    assert_eq!(pairs.len(), 1);
    assert_eq!(pairs[0].0, "alias");
}

#[test]
fn find_partial_by_key_host_or_login() {
    let s = store();
    assert_eq!(s.find_partial("muse@armo10220").unwrap().password, "pw1");
    assert_eq!(s.find_partial("10220").unwrap().user, "muse");
    assert_eq!(s.find_partial("backup").unwrap().user, "root");
    assert_eq!(s.find_partial("root@back").unwrap().host, "backup.example.org");
    assert!(s.find_partial("nowhere").is_none());
}

#[test]
fn exact_key_wins_over_substring() {
    let mut s = HostStore::new();
    s.upsert("x", "abc", "1");
    s.insert(
        "abc".to_string(),
        HostEntry { user: "y".to_string(), host: "zzz".to_string(), password: "2".to_string() },
    );
    assert_eq!(s.find_partial("abc").unwrap().password, "2");
}

#[test]
fn lookup_with_at_splits_at_first_at() {
    let s = store();
    let (u, h, p) = lookup_target("muse@armo10220", &s).unwrap();
    assert_eq!((u.as_str(), h.as_str(), p.as_deref()), ("muse", "armo10220", Some("pw1")));
    let (u, h, p) = lookup_target("new@host", &s).unwrap();
    assert_eq!((u.as_str(), h.as_str(), p), ("new", "host", None));
    let (u, h, _) = lookup_target("a@b@c", &s).unwrap();
    assert_eq!((u.as_str(), h.as_str()), ("a", "b@c"));
    let (u, h, _) = lookup_target("@x", &s).unwrap();
    assert_eq!((u.as_str(), h.as_str()), ("", "x"));
}

#[test]
fn lookup_alias() {
    let s = store();
    let (u, h, p) = lookup_target("10220", &s).unwrap();
    assert_eq!((u.as_str(), h.as_str(), p.as_deref()), ("muse", "armo10220", Some("pw1")));
}

#[test]
fn lookup_unknown_alias_fails() {
    let s = store();
    assert_eq!(
        lookup_target("zeus", &s).unwrap_err(),
        "No saved host matching 'zeus'. Use user@host on first login."
    );
}

#[test]
fn auth_errors() {
    assert!(is_auth_error("Authentication failed"));
    assert!(is_auth_error("[Session(-18)] Username/PublicKey combination invalid: AUTH"));
    assert!(is_auth_error("oauth"));
    assert!(!is_auth_error("Failed to connect to host:22"));
    assert!(!is_auth_error(""));
}

#[test]
fn saving_twice_is_saving_once() {
    let mut s = HostStore::new();
    s.upsert("a", "b", "p");
    s.upsert("a", "b", "p");
    assert_eq!(s.pairs().len(), 1);
    assert_eq!(s.find_partial("a@b").unwrap().password, "p");
}

#[test]
fn count_of_saved_logins() {
    let mut s = HostStore::new();
    assert_eq!(s.len(), 0);
    s.upsert("a", "h1", "p");
    s.upsert("b", "h2", "p");
    assert_eq!(s.len(), 2);
    s.upsert("a", "h1", "q");
    assert_eq!(s.len(), 2);
}

#[test]
fn lookup_picks_what_find_partial_picks() {
    let mut s = HostStore::new();
    s.upsert("u1", "web.example.org", "one");
    s.upsert("u2", "web2.example.org", "two");
    let e = s.find_partial("web").unwrap();
    let (u, h, p) = lookup_target("web", &s).unwrap();
    assert_eq!((u.as_str(), h.as_str(), p.as_deref()), (e.user.as_str(), e.host.as_str(), Some(e.password.as_str())));
    assert_eq!(e.password, "one");
}
