use git_switch_user::codec::StoreReadError;
use git_switch_user::profiles::{Profile, ProfileRepository, ProfilesContent};

fn profile(name: &str, user: &str, email: &str) -> Profile {
    Profile {
        name: name.to_string(),
        user: user.to_string(),
        email: email.to_string(),
        signing: false,
        key: None,
        ssh_key: None,
    }
}

#[test]
fn round_trip_two_profiles() {
    let content = ProfilesContent {
        profiles: vec![
            Profile {
                name: "work".to_string(),
                user: "Alice".to_string(),
                email: "a@x.com".to_string(),
                signing: true,
                key: Some("ABC123".to_string()),
                ssh_key: Some("/home/alice/.ssh/id_ed25519".to_string()),
            },
            profile("home", "Bob", "bob@example.org"),
        ],
    };
    let doc = content.to_document();
    let reloaded = ProfilesContent::from_document(&doc).unwrap();
    assert_eq!(reloaded.profiles, content.profiles);
}

#[test]
fn round_trip_keeps_order() {
    let content = ProfilesContent {
        profiles: vec![
            profile("c", "u3", "e3"),
            profile("a", "u1", "e1"),
            profile("b", "u2", "e2"),
        ],
    };
    let doc = content.to_document();
    let reloaded = ProfilesContent::from_document(&doc).unwrap();
    let names: Vec<&str> = reloaded.profiles.iter().map(|p| p.name.as_str()).collect();
    assert_eq!(names, vec!["c", "a", "b"]);
}

#[test]
fn round_trip_structural_characters() {
    let content = ProfilesContent {
        profiles: vec![Profile {
            name: "odd;name\\with\nnoise".to_string(),
            user: ";;".to_string(),
            email: "\\".to_string(),
            signing: false,
            key: Some("".to_string()),
            ssh_key: None,
        }],
    };
    let doc = content.to_document();
    let reloaded = ProfilesContent::from_document(&doc).unwrap();
    assert_eq!(reloaded.profiles, content.profiles);
}

#[test]
fn empty_document_is_empty_list() {
    let doc: Vec<char> = Vec::new();
    let reloaded = ProfilesContent::from_document(&doc).unwrap();
    assert!(reloaded.profiles.is_empty());
    let content = ProfilesContent { profiles: Vec::new() };
    assert!(content.to_document().is_empty());
}

#[test]
fn malformed_document_is_refused() {
    // An unterminated string field.
    let doc: Vec<char> = "ab".chars().collect();
    assert_eq!(ProfilesContent::from_document(&doc), Err(StoreReadError));
    // A record cut off after the name field.
    let doc: Vec<char> = "work;".chars().collect();
    assert_eq!(ProfilesContent::from_document(&doc), Err(StoreReadError));
    // A bad boolean tag.
    let doc: Vec<char> = "n;u;e;xnn".chars().collect();
    assert_eq!(ProfilesContent::from_document(&doc), Err(StoreReadError));
    // Trailing escape.
    let doc: Vec<char> = "n;u;e;fnns;\\".chars().collect();
    assert_eq!(ProfilesContent::from_document(&doc), Err(StoreReadError));
}

#[test]
fn create_appends_and_reports() {
    let mut repo = ProfileRepository::new();
    assert!(repo.create(profile("work", "Alice", "a@x.com")));
    assert!(repo.create(profile("home", "Bob", "b@x.com")));
    let all = repo.get_all();
    assert_eq!(all.len(), 2);
    assert_eq!(all[0].name, "work");
    assert_eq!(all[1].name, "home");
}

#[test]
fn create_duplicate_name_is_a_no_op() {
    let mut repo = ProfileRepository::new();
    assert!(repo.create(profile("work", "Alice", "a@x.com")));
    let before = repo.get_all();
    let created = repo.create(profile("work", "Mallory", "m@x.com"));
    assert!(!created);
    let after = repo.get_all();
    assert_eq!(after, before);
    assert_eq!(after.len(), 1);
    assert_eq!(after[0].user, "Alice");
}

#[test]
fn remove_present_name_drops_exactly_it() {
    let mut repo = ProfileRepository::new();
    repo.create(profile("work", "Alice", "a@x.com"));
    repo.create(profile("home", "Bob", "b@x.com"));
    repo.create(profile("club", "Carol", "c@x.com"));
    let found = repo.remove("home");
    assert!(found);
    let all = repo.get_all();
    assert_eq!(all.len(), 2);
    assert_eq!(all[0].name, "work");
    assert_eq!(all[1].name, "club");
}

#[test]
fn remove_absent_name_changes_nothing() {
    let mut repo = ProfileRepository::new();
    repo.create(profile("work", "Alice", "a@x.com"));
    let before = repo.get_all();
    let found = repo.remove("home");
    assert!(!found);
    assert_eq!(repo.get_all(), before);
}

#[test]
fn find_by_name_takes_first_exact_match() {
    let mut repo = ProfileRepository::new();
    repo.create(profile("work", "Alice", "a@x.com"));
    repo.create(profile("home", "Bob", "b@x.com"));
    let p = repo.find_by_name("home").unwrap();
    assert_eq!(p.user, "Bob");
    assert!(repo.find_by_name("Work").is_none());
    assert!(repo.find_by_name("").is_none());
}

#[test]
fn store_round_trip_through_repository() {
    let mut repo = ProfileRepository::new();
    repo.create(profile("work", "Alice", "a@x.com"));
    repo.create(profile("home", "Bob", "b@x.com"));
    let doc = repo.into_content().to_document();
    let repo2 = ProfileRepository::from_content(ProfilesContent::from_document(&doc).unwrap());
    let all = repo2.get_all();
    assert_eq!(all.len(), 2);
    assert_eq!(all[0].name, "work");
    assert_eq!(all[1].user, "Bob");
}
