use hookhub::{item_id, Endpoint, History, Profile, ProfileError, Profiles, UrlError};

fn endpoint(scheme: &str, authority: &str, path: &str) -> Endpoint {
    Endpoint { scheme: scheme.to_string(), authority: authority.to_string(), path: path.to_string(), query: None }
}

fn profile(remote: &str, local: &str) -> Profile {
    Profile {
        remote: endpoint(remote, "relay", "/x"),
        secret: "s3cr3t".to_string(),
        local: endpoint(local, "127.0.0.1:4000", "/y"),
    }
}

#[test]
fn profile_prepare_sets_both_paths() {
    let p = profile("wss", "http").prepare().unwrap();
    assert_eq!(p.remote.as_text(), "wss://relay/__hookhub__/");
    assert_eq!(p.local.as_text(), "http://127.0.0.1:4000/");
    assert_eq!(p.secret, "s3cr3t");
}

#[test]
fn profile_prepare_checks_remote_first() {
    assert!(matches!(profile("http", "ws").prepare(), Err(UrlError::RemoteScheme)));
    assert!(matches!(profile("ws", "ftp").prepare(), Err(UrlError::LocalScheme)));
}

#[test]
fn profiles_add_get_delete() {
    let mut ps = Profiles::new();
    assert!(ps.get("default").is_none());
    assert_eq!(ps.add("default".to_string(), profile("ws", "http")), Ok(()));
    assert_eq!(ps.add("work".to_string(), profile("wss", "https")), Ok(()));
    assert_eq!(ps.get("work").unwrap().remote.scheme, "wss");
    assert_eq!(ps.list().len(), 2);
    assert_eq!(ps.list()[0].0, "default");
    assert_eq!(ps.delete("default"), Ok(()));
    assert!(ps.get("default").is_none());
    assert_eq!(ps.list().len(), 1);
}

#[test]
fn profiles_refuse_duplicate_and_unknown_names() {
    let mut ps = Profiles::new();
    ps.add("a".to_string(), profile("ws", "http")).unwrap();
    assert_eq!(ps.add("a".to_string(), profile("wss", "https")), Err(ProfileError::AlreadyExists));
    assert_eq!(ps.get("a").unwrap().remote.scheme, "ws");
    assert_eq!(ps.delete("b"), Err(ProfileError::NotFound));
    assert_eq!(ps.list().len(), 1);
}

#[test]
fn history_file_names() {
    let h = History::new("/home/u/.hookhub/history".to_string());
    assert_eq!(h.item_file("brave-owl"), "/home/u/.hookhub/history/brave-owl.json");
    assert_eq!(h.pattern(), "/home/u/.hookhub/history/*.json");
}

#[test]
fn history_item_ids() {
    assert_eq!(item_id("brave-owl.json"), Some("brave-owl".to_string()));
    assert_eq!(item_id(".json"), None);
    assert_eq!(item_id("notes.txt"), None);
    assert_eq!(item_id("json"), None);
}
