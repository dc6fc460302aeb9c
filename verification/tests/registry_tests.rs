use athene_bot::registry::{needs_login, AccountEntry, AccountRegistry, User};

fn user(link: Option<&str>, token: Option<&str>, code: Option<&str>) -> User {
    User {
        link: link.map(|s| s.to_owned()),
        access_token: token.map(|s| s.to_owned()),
        invite_code: code.map(|s| s.to_owned()),
    }
}

fn two_accounts() -> AccountRegistry {
    let mut reg = AccountRegistry::new();
    assert!(reg.add_account("alice".to_owned(), user(Some("https://x#a=1"), None, Some("inv"))));
    assert!(reg.add_account("bob".to_owned(), user(Some("https://y#b=2"), Some("tok-b"), None)));
    reg
}

#[test]
fn login_needed_exactly_without_token() {
    assert!(needs_login(&user(Some("l"), None, None)));
    assert!(!needs_login(&user(None, Some("t"), None)));
}

#[test]
fn duplicate_names_are_refused() {
    let mut reg = two_accounts();
    assert!(!reg.add_account("alice".to_owned(), user(None, None, None)));
    assert_eq!(reg.len(), 2);
}

#[test]
fn finds_accounts_by_name() {
    let reg = two_accounts();
    assert_eq!(reg.find_index(&"alice".to_owned()), Some(0));
    assert_eq!(reg.find_index(&"bob".to_owned()), Some(1));
    assert_eq!(reg.find_index(&"carol".to_owned()), None);
}

#[test]
fn resolving_a_token_preserves_every_other_entry() {
    let mut reg = two_accounts();
    reg.set_token(0, "tok-a".to_owned());

    let alice: &AccountEntry = &reg.entries[0];
    assert_eq!(alice.name, "alice");
    assert_eq!(alice.user.link.as_deref(), Some("https://x#a=1"));
    assert_eq!(alice.user.invite_code.as_deref(), Some("inv"));
    assert_eq!(alice.user.access_token.as_deref(), Some("tok-a"));

    let bob: &AccountEntry = &reg.entries[1];
    assert_eq!(bob.name, "bob");
    assert_eq!(bob.user.link.as_deref(), Some("https://y#b=2"));
    assert_eq!(bob.user.invite_code, None);
    assert_eq!(bob.user.access_token.as_deref(), Some("tok-b"));
}

/// Loading the persisted mapping, resolving one account's token, and saving
/// again loses nothing: every untouched field of every other account
/// survives the round trip.
#[test]
fn persisted_mapping_round_trips() {
    let stored = "{\n  \"alice\": {\"link\": \"https://x#a=1\", \"access_token\": null, \"invite_code\": \"inv\"},\n  \"bob\": {\"link\": \"https://y#b=2\", \"access_token\": \"tok-b\", \"invite_code\": null}\n}";
    let doc: serde_json::Value = serde_json::from_str(stored).unwrap();

    // load into the registry, names in sorted key order
    let mut reg = AccountRegistry::new();
    for (name, entry) in doc.as_object().unwrap() {
        let field = |key: &str| entry[key].as_str().map(|s| s.to_owned());
        assert!(reg.add_account(
            name.clone(),
            User {
                link: field("link"),
                access_token: field("access_token"),
                invite_code: field("invite_code"),
            }
        ));
    }

    // the startup phase resolves alice's token
    let alice = reg.find_index(&"alice".to_owned()).unwrap();
    reg.set_token(alice, "tok-a".to_owned());

    // save: serialize the snapshot back and compare against the expected
    // document, reformatting allowed but no data loss
    let mut out = serde_json::Map::new();
    for e in &reg.entries {
        let mut fields = serde_json::Map::new();
        let val = |v: &Option<String>| match v {
            Some(s) => serde_json::Value::String(s.clone()),
            None => serde_json::Value::Null,
        };
        fields.insert("link".to_owned(), val(&e.user.link));
        fields.insert("access_token".to_owned(), val(&e.user.access_token));
        fields.insert("invite_code".to_owned(), val(&e.user.invite_code));
        out.insert(e.name.clone(), serde_json::Value::Object(fields));
    }

    let expected = "{\n  \"alice\": {\"link\": \"https://x#a=1\", \"access_token\": \"tok-a\", \"invite_code\": \"inv\"},\n  \"bob\": {\"link\": \"https://y#b=2\", \"access_token\": \"tok-b\", \"invite_code\": null}\n}";
    let expected_doc: serde_json::Value = serde_json::from_str(expected).unwrap();
    assert_eq!(serde_json::Value::Object(out), expected_doc);
}

#[test]
fn resolving_twice_keeps_latest_token() {
    let mut reg = two_accounts();
    reg.set_token(0, "first".to_owned());
    reg.set_token(0, "second".to_owned());
    assert_eq!(reg.entries[0].user.access_token.as_deref(), Some("second"));
    assert_eq!(reg.len(), 2);
}
