use git_switch_user::profiles::Profile;
use git_switch_user::sync::{
    activate_plan, identity_actions, resolve_unset, Action, ConfigKey, ConfigStore,
    InvalidProfileError, ScopeConfig,
};

fn plain(user: &str, email: &str) -> Profile {
    Profile {
        name: "work".to_string(),
        user: user.to_string(),
        email: email.to_string(),
        signing: false,
        key: None,
        ssh_key: None,
    }
}

#[test]
fn key_names_match_the_backend() {
    assert_eq!(ConfigKey::UserName.key_name(), "user.name");
    assert_eq!(ConfigKey::UserEmail.key_name(), "user.email");
    assert_eq!(ConfigKey::CommitGpgsign.key_name(), "commit.gpgsign");
    assert_eq!(ConfigKey::TagGpgsign.key_name(), "tag.gpgsign");
    assert_eq!(ConfigKey::UserSigningkey.key_name(), "user.signingkey");
    assert_eq!(ConfigKey::CoreSshCommand.key_name(), "core.sshCommand");
}

#[test]
fn resolve_unset_pins_default_or_unsets() {
    let a = resolve_unset(ConfigKey::CommitGpgsign, "false", true);
    assert_eq!(a, Action::Write(ConfigKey::CommitGpgsign, "false".to_string()));
    let b = resolve_unset(ConfigKey::CommitGpgsign, "false", false);
    assert_eq!(b, Action::Unset(ConfigKey::CommitGpgsign));
}

#[test]
fn local_plan_with_global_value_sets_default_never_unsets() {
    let mut global = ScopeConfig::new();
    global.commit_gpgsign = Some("true".to_string());
    let plan = activate_plan(&plain("Alice", "a@x.com"), false, &global).unwrap();
    assert!(plan.contains(&Action::Write(ConfigKey::CommitGpgsign, "false".to_string())));
    assert!(!plan.contains(&Action::Unset(ConfigKey::CommitGpgsign)));
}

#[test]
fn local_plan_without_global_value_unsets_never_sets() {
    let global = ScopeConfig::new();
    let plan = activate_plan(&plain("Alice", "a@x.com"), false, &global).unwrap();
    assert!(plan.contains(&Action::Unset(ConfigKey::CommitGpgsign)));
    assert!(plan.contains(&Action::Unset(ConfigKey::TagGpgsign)));
    assert!(plan.contains(&Action::Unset(ConfigKey::UserSigningkey)));
    assert!(plan.contains(&Action::Unset(ConfigKey::CoreSshCommand)));
    for a in &plan {
        if let Action::Write(key, _) = a {
            assert!(*key == ConfigKey::UserName || *key == ConfigKey::UserEmail);
        }
    }
}

#[test]
fn global_plan_ignores_existing_global_values() {
    let mut loaded = ScopeConfig::new();
    loaded.commit_gpgsign = Some("true".to_string());
    loaded.tag_gpgsign = Some("true".to_string());
    loaded.user_signingkey = Some("OLDKEY".to_string());
    loaded.core_ssh_command = Some("ssh -i /old".to_string());
    let empty = ScopeConfig::new();
    let p = plain("Alice", "a@x.com");
    let with_values = activate_plan(&p, true, &loaded).unwrap();
    let without = activate_plan(&p, true, &empty).unwrap();
    assert_eq!(with_values, without);
    assert!(with_values.contains(&Action::Unset(ConfigKey::CommitGpgsign)));
    assert!(with_values.contains(&Action::Unset(ConfigKey::CoreSshCommand)));
}

#[test]
fn signing_without_key_is_refused_after_identity() {
    let p = Profile {
        name: "work".to_string(),
        user: "Alice".to_string(),
        email: "a@x.com".to_string(),
        signing: true,
        key: None,
        ssh_key: None,
    };
    let mut store = ConfigStore::new();
    store.global.user_signingkey = Some("ABC123".to_string());
    let r = store.activate(&p, false);
    assert_eq!(r, Err(InvalidProfileError));
    // Identity was written; that partial effect is the documented behaviour.
    assert_eq!(store.local.user_name.as_deref(), Some("Alice"));
    assert_eq!(store.local.user_email.as_deref(), Some("a@x.com"));
    // No signing- or transport-related key was touched.
    assert_eq!(store.local.commit_gpgsign, None);
    assert_eq!(store.local.tag_gpgsign, None);
    assert_eq!(store.local.user_signingkey, None);
    assert_eq!(store.local.core_ssh_command, None);
    assert_eq!(store.global.user_signingkey.as_deref(), Some("ABC123"));
}

#[test]
fn plan_for_signing_without_key_is_refused() {
    let p = Profile {
        name: "work".to_string(),
        user: "Alice".to_string(),
        email: "a@x.com".to_string(),
        signing: true,
        key: None,
        ssh_key: None,
    };
    assert_eq!(activate_plan(&p, false, &ScopeConfig::new()), Err(InvalidProfileError));
    assert_eq!(activate_plan(&p, true, &ScopeConfig::new()), Err(InvalidProfileError));
}

#[test]
fn scenario_local_activation_on_clean_machine() {
    let p = plain("Alice", "a@x.com");
    let mut store = ConfigStore::new();
    store.activate(&p, false).unwrap();
    assert_eq!(store.local.user_name.as_deref(), Some("Alice"));
    assert_eq!(store.local.user_email.as_deref(), Some("a@x.com"));
    assert_eq!(store.local.commit_gpgsign, None);
    assert_eq!(store.local.tag_gpgsign, None);
    assert_eq!(store.local.user_signingkey, None);
    assert_eq!(store.local.core_ssh_command, None);
    assert_eq!(store.global, ScopeConfig::new());
}

#[test]
fn scenario_local_activation_shadowed_by_global_signingkey() {
    let p = plain("Alice", "a@x.com");
    let mut store = ConfigStore::new();
    store.global.user_signingkey = Some("ABC123".to_string());
    store.activate(&p, false).unwrap();
    // The safety default shields the local scope; the key is not merely
    // unset.
    assert_eq!(store.local.user_signingkey.as_deref(), Some(""));
    assert_eq!(store.local.commit_gpgsign, None);
    assert_eq!(store.local.tag_gpgsign, None);
    assert_eq!(store.global.user_signingkey.as_deref(), Some("ABC123"));
}

#[test]
fn scenario_global_activation_with_signing() {
    let p = Profile {
        name: "work".to_string(),
        user: "Alice".to_string(),
        email: "a@x.com".to_string(),
        signing: true,
        key: Some("ABC123".to_string()),
        ssh_key: None,
    };
    let mut store = ConfigStore::new();
    store.activate(&p, true).unwrap();
    assert_eq!(store.global.user_name.as_deref(), Some("Alice"));
    assert_eq!(store.global.user_email.as_deref(), Some("a@x.com"));
    assert_eq!(store.global.commit_gpgsign.as_deref(), Some("true"));
    assert_eq!(store.global.tag_gpgsign.as_deref(), Some("true"));
    assert_eq!(store.global.user_signingkey.as_deref(), Some("ABC123"));
    assert_eq!(store.global.core_ssh_command, None);
    assert_eq!(store.local, ScopeConfig::new());
}

#[test]
fn ssh_key_writes_transport_command() {
    let mut p = plain("Alice", "a@x.com");
    p.ssh_key = Some("/home/alice/.ssh/id_ed25519".to_string());
    let mut store = ConfigStore::new();
    store.activate(&p, false).unwrap();
    assert_eq!(
        store.local.core_ssh_command.as_deref(),
        Some("ssh -i /home/alice/.ssh/id_ed25519")
    );
}

#[test]
fn identity_actions_are_the_two_identity_writes() {
    let acts = identity_actions(&plain("Alice", "a@x.com"));
    assert_eq!(
        acts,
        vec![
            Action::Write(ConfigKey::UserName, "Alice".to_string()),
            Action::Write(ConfigKey::UserEmail, "a@x.com".to_string()),
        ]
    );
}

#[test]
fn apply_all_runs_actions_in_order() {
    let mut scope = ScopeConfig::new();
    let acts = vec![
        Action::Write(ConfigKey::UserName, "first".to_string()),
        Action::Write(ConfigKey::UserName, "second".to_string()),
        Action::Unset(ConfigKey::UserEmail),
    ];
    scope.apply_all(&acts);
    assert_eq!(scope.user_name.as_deref(), Some("second"));
    assert_eq!(scope.user_email, None);
}
