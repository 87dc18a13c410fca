//! The scope synchronizer: from a profile and a target scope to the exact
//! sequence of configuration writes and unsets.
//!
//! Identity keys are always written at the requested scope.  Signing and
//! transport keys that the profile turns off go through the conditional
//! unset: at local scope, a key that also has a global value is not unset
//! (the global value would fall through) but pinned to a safe local
//! default; with no global value it is unset outright.  At global scope the
//! conditional check never runs and the key is unset directly.

use vstd::prelude::*;
use vstd::string::StringExecFns;
use crate::profiles::{Profile, ProfileView};

verus! {

/// A profile asked for signing but names no key; activation refuses it.
#[derive(Clone, Copy, Debug, PartialEq, Eq, Structural)]
pub struct InvalidProfileError;

/// The fixed set of configuration keys this tool manages.
#[derive(Clone, Copy, Debug, PartialEq, Eq, Structural)]
pub enum ConfigKey {
    UserName,
    UserEmail,
    CommitGpgsign,
    TagGpgsign,
    UserSigningkey,
    CoreSshCommand,
}

/// The configuration backend's name for a key.
pub open spec fn spec_key_name(key: ConfigKey) -> Seq<char> {
    match key {
        ConfigKey::UserName => "user.name"@,
        ConfigKey::UserEmail => "user.email"@,
        ConfigKey::CommitGpgsign => "commit.gpgsign"@,
        ConfigKey::TagGpgsign => "tag.gpgsign"@,
        ConfigKey::UserSigningkey => "user.signingkey"@,
        ConfigKey::CoreSshCommand => "core.sshCommand"@,
    }
}

impl ConfigKey {
    /// The backend's name for this key, e.g. for a `git config` call.
    pub fn key_name(self) -> (r: &'static str)
        ensures
            r@ == spec_key_name(self),
    {
        match self {
            ConfigKey::UserName => "user.name",
            ConfigKey::UserEmail => "user.email",
            ConfigKey::CommitGpgsign => "commit.gpgsign",
            ConfigKey::TagGpgsign => "tag.gpgsign",
            ConfigKey::UserSigningkey => "user.signingkey",
            ConfigKey::CoreSshCommand => "core.sshCommand",
        }
    }
}

/// Mathematical image of one backend call.
pub enum ActionView {
    Write(ConfigKey, Seq<char>),
    Unset(ConfigKey),
}

/// One backend call at the requested scope: write a value, or remove the
/// key.
#[derive(Debug, PartialEq, Eq, Clone)]
pub enum Action {
    Write(ConfigKey, String),
    Unset(ConfigKey),
}

impl View for Action {
    type V = ActionView;

    open spec fn view(&self) -> ActionView {
        match self {
            Action::Write(k, v) => ActionView::Write(*k, v@),
            Action::Unset(k) => ActionView::Unset(*k),
        }
    }
}

impl DeepView for Action {
    type V = ActionView;

    open spec fn deep_view(&self) -> ActionView {
        self.view()
    }
}

/// Mathematical image of one scope of the backend: each managed key either
/// absent or bound to a value.
pub struct ScopeConfigView {
    pub user_name: Option<Seq<char>>,
    pub user_email: Option<Seq<char>>,
    pub commit_gpgsign: Option<Seq<char>>,
    pub tag_gpgsign: Option<Seq<char>>,
    pub user_signingkey: Option<Seq<char>>,
    pub core_ssh_command: Option<Seq<char>>,
}

impl ScopeConfigView {
    /// The value bound to a key, if any.
    pub open spec fn spec_get(self, key: ConfigKey) -> Option<Seq<char>> {
        match key {
            ConfigKey::UserName => self.user_name,
            ConfigKey::UserEmail => self.user_email,
            ConfigKey::CommitGpgsign => self.commit_gpgsign,
            ConfigKey::TagGpgsign => self.tag_gpgsign,
            ConfigKey::UserSigningkey => self.user_signingkey,
            ConfigKey::CoreSshCommand => self.core_ssh_command,
        }
    }

    /// The scope with one key bound to a value.
    pub open spec fn spec_set(self, key: ConfigKey, value: Seq<char>) -> ScopeConfigView {
        match key {
            ConfigKey::UserName => ScopeConfigView { user_name: Some(value), ..self },
            ConfigKey::UserEmail => ScopeConfigView { user_email: Some(value), ..self },
            ConfigKey::CommitGpgsign => ScopeConfigView { commit_gpgsign: Some(value), ..self },
            ConfigKey::TagGpgsign => ScopeConfigView { tag_gpgsign: Some(value), ..self },
            ConfigKey::UserSigningkey => ScopeConfigView { user_signingkey: Some(value), ..self },
            ConfigKey::CoreSshCommand => ScopeConfigView { core_ssh_command: Some(value), ..self },
        }
    }

    /// The scope with one key removed.
    pub open spec fn spec_unset(self, key: ConfigKey) -> ScopeConfigView {
        match key {
            ConfigKey::UserName => ScopeConfigView { user_name: None, ..self },
            ConfigKey::UserEmail => ScopeConfigView { user_email: None, ..self },
            ConfigKey::CommitGpgsign => ScopeConfigView { commit_gpgsign: None, ..self },
            ConfigKey::TagGpgsign => ScopeConfigView { tag_gpgsign: None, ..self },
            ConfigKey::UserSigningkey => ScopeConfigView { user_signingkey: None, ..self },
            ConfigKey::CoreSshCommand => ScopeConfigView { core_ssh_command: None, ..self },
        }
    }
}

/// A scope in which no managed key has a value.
pub open spec fn empty_scope_view() -> ScopeConfigView {
    ScopeConfigView {
        user_name: None,
        user_email: None,
        commit_gpgsign: None,
        tag_gpgsign: None,
        user_signingkey: None,
        core_ssh_command: None,
    }
}

/// One scope of the configuration backend, as an in-memory key-value
/// store over the managed keys.
#[derive(Debug, PartialEq, Eq, Clone)]
pub struct ScopeConfig {
    pub user_name: Option<String>,
    pub user_email: Option<String>,
    pub commit_gpgsign: Option<String>,
    pub tag_gpgsign: Option<String>,
    pub user_signingkey: Option<String>,
    pub core_ssh_command: Option<String>,
}

impl View for ScopeConfig {
    type V = ScopeConfigView;

    open spec fn view(&self) -> ScopeConfigView {
        ScopeConfigView {
            user_name: self.user_name.deep_view(),
            user_email: self.user_email.deep_view(),
            commit_gpgsign: self.commit_gpgsign.deep_view(),
            tag_gpgsign: self.tag_gpgsign.deep_view(),
            user_signingkey: self.user_signingkey.deep_view(),
            core_ssh_command: self.core_ssh_command.deep_view(),
        }
    }
}

impl ScopeConfig {
    /// A scope with no key set.
    pub fn new() -> (r: Self)
        ensures
            r@ == empty_scope_view(),
    {
        ScopeConfig {
            user_name: None,
            user_email: None,
            commit_gpgsign: None,
            tag_gpgsign: None,
            user_signingkey: None,
            core_ssh_command: None,
        }
    }

    /// Whether a key currently has a value.
    pub fn has(&self, key: ConfigKey) -> (r: bool)
        ensures
            r == (self@.spec_get(key) is Some),
    {
        match key {
            ConfigKey::UserName => self.user_name.is_some(),
            ConfigKey::UserEmail => self.user_email.is_some(),
            ConfigKey::CommitGpgsign => self.commit_gpgsign.is_some(),
            ConfigKey::TagGpgsign => self.tag_gpgsign.is_some(),
            ConfigKey::UserSigningkey => self.user_signingkey.is_some(),
            ConfigKey::CoreSshCommand => self.core_ssh_command.is_some(),
        }
    }

    /// Perform one action on this scope.
    pub fn apply(&mut self, action: &Action)
        ensures
            final(self)@ == spec_apply_action(old(self)@, action@),
    {
        match action {
            Action::Write(key, value) => {
                let v = Some(value.clone());
                match key {
                    ConfigKey::UserName => self.user_name = v,
                    ConfigKey::UserEmail => self.user_email = v,
                    ConfigKey::CommitGpgsign => self.commit_gpgsign = v,
                    ConfigKey::TagGpgsign => self.tag_gpgsign = v,
                    ConfigKey::UserSigningkey => self.user_signingkey = v,
                    ConfigKey::CoreSshCommand => self.core_ssh_command = v,
                }
            },
            Action::Unset(key) => {
                match key {
                    ConfigKey::UserName => self.user_name = None,
                    ConfigKey::UserEmail => self.user_email = None,
                    ConfigKey::CommitGpgsign => self.commit_gpgsign = None,
                    ConfigKey::TagGpgsign => self.tag_gpgsign = None,
                    ConfigKey::UserSigningkey => self.user_signingkey = None,
                    ConfigKey::CoreSshCommand => self.core_ssh_command = None,
                }
            },
        }
    }

    /// Perform a sequence of actions on this scope, in order.
    pub fn apply_all(&mut self, actions: &Vec<Action>)
        ensures
            final(self)@ == spec_apply_actions(old(self)@, actions.deep_view()),
    {
        let n = actions.len();
        let mut i: usize = 0;
        proof {
            assert(actions.deep_view().take(0) =~= Seq::<ActionView>::empty());
        }
        while i < n
            invariant
                n == actions@.len(),
                i <= n,
                self@ == spec_apply_actions(old(self)@, actions.deep_view().take(i as int)),
            decreases n - i,
        {
            proof {
                assert(actions.deep_view()[i as int] == actions@[i as int].deep_view());
                assert(actions.deep_view().take(i + 1 as int) =~= actions.deep_view().take(
                    i as int,
                ).push(actions.deep_view()[i as int]));
                lemma_spec_apply_actions_snoc(
                    old(self)@,
                    actions.deep_view().take(i as int),
                    actions.deep_view()[i as int],
                );
            }
            self.apply(&actions[i]);
            i += 1;
        }
        proof {
            assert(actions.deep_view().take(n as int) =~= actions.deep_view());
        }
    }
}

/// One action applied to a scope.
pub open spec fn spec_apply_action(s: ScopeConfigView, a: ActionView) -> ScopeConfigView {
    match a {
        ActionView::Write(key, value) => s.spec_set(key, value),
        ActionView::Unset(key) => s.spec_unset(key),
    }
}

/// A sequence of actions applied left to right.
pub open spec fn spec_apply_actions(s: ScopeConfigView, actions: Seq<ActionView>) -> ScopeConfigView
    decreases actions.len(),
{
    if actions.len() == 0 {
        s
    } else {
        spec_apply_actions(spec_apply_action(s, actions[0]), actions.drop_first())
    }
}

/// Applying one more action continues from the state so far.
pub proof fn lemma_spec_apply_actions_snoc(s: ScopeConfigView, actions: Seq<ActionView>, a: ActionView)
    ensures
        spec_apply_actions(s, actions.push(a)) == spec_apply_action(
            spec_apply_actions(s, actions),
            a,
        ),
    decreases actions.len(),
{
    reveal_with_fuel(spec_apply_actions, 3);
    if actions.len() == 0 {
        assert(actions.push(a)[0] == a);
        assert(actions.push(a).drop_first() =~= Seq::<ActionView>::empty());
    } else {
        assert(actions.push(a)[0] == actions[0]);
        assert(actions.push(a).drop_first() =~= actions.drop_first().push(a));
        lemma_spec_apply_actions_snoc(spec_apply_action(s, actions[0]), actions.drop_first(), a);
    }
}

/// The shadowing-safe decision for turning a key off at local scope: with
/// a global value present, pin the safe local default; with none, unset.
pub open spec fn spec_resolve_unset(
    key: ConfigKey,
    local_default: Seq<char>,
    global_present: bool,
) -> ActionView {
    if global_present {
        ActionView::Write(key, local_default)
    } else {
        ActionView::Unset(key)
    }
}

/// Turning a key off at the requested scope: global scope unsets outright,
/// local scope goes through the conditional decision against the global
/// store.
pub open spec fn spec_unset_action(
    key: ConfigKey,
    local_default: Seq<char>,
    global: bool,
    global_config: ScopeConfigView,
) -> ActionView {
    if global {
        ActionView::Unset(key)
    } else {
        spec_resolve_unset(key, local_default, global_config.spec_get(key) is Some)
    }
}

/// The two identity writes that every activation begins with.
pub open spec fn spec_identity_actions(p: ProfileView) -> Seq<ActionView> {
    seq![
        ActionView::Write(ConfigKey::UserName, p.user),
        ActionView::Write(ConfigKey::UserEmail, p.email),
    ]
}

/// A profile may be activated only if signing, when on, names a key.
pub open spec fn profile_activatable(p: ProfileView) -> bool {
    p.signing ==> p.key is Some
}

/// The safe local default written in place of an unset when a global value
/// shadows the key.
pub open spec fn conditional_default(key: ConfigKey) -> Seq<char> {
    match key {
        ConfigKey::CommitGpgsign => "false"@,
        ConfigKey::TagGpgsign => "false"@,
        ConfigKey::UserSigningkey => ""@,
        ConfigKey::CoreSshCommand => "ssh"@,
        ConfigKey::UserName => ""@,
        ConfigKey::UserEmail => ""@,
    }
}

/// The three signing actions: writes when signing is on, conditional
/// unsets when it is off.
pub open spec fn spec_signing_actions(
    p: ProfileView,
    global: bool,
    global_config: ScopeConfigView,
) -> Seq<ActionView> {
    if p.signing {
        seq![
            ActionView::Write(ConfigKey::CommitGpgsign, "true"@),
            ActionView::Write(ConfigKey::TagGpgsign, "true"@),
            ActionView::Write(ConfigKey::UserSigningkey, p.key.unwrap()),
        ]
    } else {
        seq![
            spec_unset_action(ConfigKey::CommitGpgsign, "false"@, global, global_config),
            spec_unset_action(ConfigKey::TagGpgsign, "false"@, global, global_config),
            spec_unset_action(ConfigKey::UserSigningkey, ""@, global, global_config),
        ]
    }
}

/// The transport action: an ssh command write, or the conditional unset.
pub open spec fn spec_transport_action(
    p: ProfileView,
    global: bool,
    global_config: ScopeConfigView,
) -> ActionView {
    match p.ssh_key {
        Some(k) => ActionView::Write(ConfigKey::CoreSshCommand, "ssh -i "@ + k),
        None => spec_unset_action(ConfigKey::CoreSshCommand, "ssh"@, global, global_config),
    }
}

/// The whole activation plan, or nothing for a profile that signing
/// invalidates.
pub open spec fn spec_activate_plan(
    p: ProfileView,
    global: bool,
    global_config: ScopeConfigView,
) -> Option<Seq<ActionView>> {
    if !profile_activatable(p) {
        None
    } else {
        Some(
            spec_identity_actions(p) + spec_signing_actions(p, global, global_config) + seq![
                spec_transport_action(p, global, global_config),
            ],
        )
    }
}

/// The shadowing-safe decision, executably.
pub fn resolve_unset(key: ConfigKey, local_default: &str, global_present: bool) -> (r: Action)
    ensures
        r@ == spec_resolve_unset(key, local_default@, global_present),
{
    if global_present {
        Action::Write(key, String::from_str(local_default))
    } else {
        Action::Unset(key)
    }
}

/// Turning a key off at the requested scope, executably.
pub fn unset_action(
    key: ConfigKey,
    local_default: &str,
    global: bool,
    global_config: &ScopeConfig,
) -> (r: Action)
    ensures
        r@ == spec_unset_action(key, local_default@, global, global_config@),
{
    if global {
        Action::Unset(key)
    } else {
        resolve_unset(key, local_default, global_config.has(key))
    }
}

/// The identity writes for a profile, always performed first.
pub fn identity_actions(p: &Profile) -> (r: Vec<Action>)
    ensures
        r.deep_view() == spec_identity_actions(p@),
{
    let mut r: Vec<Action> = Vec::new();
    r.push(Action::Write(ConfigKey::UserName, p.user.clone()));
    r.push(Action::Write(ConfigKey::UserEmail, p.email.clone()));
    proof {
        assert forall|j: int| 0 <= j < 2 implies r.deep_view()[j] == spec_identity_actions(p@)[j]
            by {
            assert(r.deep_view()[j] == r@[j].deep_view());
        }
        assert(r.deep_view() =~= spec_identity_actions(p@));
    }
    r
}

/// The full plan for activating a profile at a scope, given the global
/// store to probe; refuses a profile with signing on and no key.
pub fn activate_plan(p: &Profile, global: bool, global_config: &ScopeConfig) -> (r: Result<
    Vec<Action>,
    InvalidProfileError,
>)
    ensures
        (match r {
            Ok(v) => spec_activate_plan(p@, global, global_config@) == Some(v.deep_view()),
            Err(_) => !profile_activatable(p@),
        }),
{
    let mut v: Vec<Action> = Vec::new();
    v.push(Action::Write(ConfigKey::UserName, p.user.clone()));
    v.push(Action::Write(ConfigKey::UserEmail, p.email.clone()));
    if p.signing {
        let k = match &p.key {
            None => {
                return Err(InvalidProfileError);
            },
            Some(k) => k.clone(),
        };
        v.push(Action::Write(ConfigKey::CommitGpgsign, String::from_str("true")));
        v.push(Action::Write(ConfigKey::TagGpgsign, String::from_str("true")));
        v.push(Action::Write(ConfigKey::UserSigningkey, k));
    } else {
        v.push(unset_action(ConfigKey::CommitGpgsign, "false", global, global_config));
        v.push(unset_action(ConfigKey::TagGpgsign, "false", global, global_config));
        v.push(unset_action(ConfigKey::UserSigningkey, "", global, global_config));
    }
    match &p.ssh_key {
        Some(k) => {
            let cmd = String::from_str("ssh -i ").concat(k.as_str());
            v.push(Action::Write(ConfigKey::CoreSshCommand, cmd));
        },
        None => {
            v.push(unset_action(ConfigKey::CoreSshCommand, "ssh", global, global_config));
        },
    }
    proof {
        let plan = spec_activate_plan(p@, global, global_config@).unwrap();
        assert(v@.len() == 6);
        assert forall|j: int| 0 <= j < 6 implies v.deep_view()[j] == plan[j] by {
            assert(v.deep_view()[j] == v@[j].deep_view());
        }
        assert(v.deep_view() =~= plan);
    }
    Ok(v)
}

/// The configuration backend: the managed keys at local and global scope.
#[derive(Debug, PartialEq, Eq, Clone)]
pub struct ConfigStore {
    pub local: ScopeConfig,
    pub global: ScopeConfig,
}

impl ConfigStore {
    /// A backend with nothing set at either scope.
    pub fn new() -> (r: Self)
        ensures
            r.local@ == empty_scope_view(),
            r.global@ == empty_scope_view(),
    {
        ConfigStore { local: ScopeConfig::new(), global: ScopeConfig::new() }
    }

    /// Activate a profile at the requested scope against this backend.
    /// On success the whole plan has run at that scope; a profile with
    /// signing on and no key is refused after the identity writes, with
    /// nothing signing- or transport-related touched; the other scope is
    /// never written.
    pub fn activate(&mut self, p: &Profile, global: bool) -> (r: Result<(), InvalidProfileError>)
        ensures
            (r is Ok) == profile_activatable(p@),
            profile_activatable(p@) ==> ({
                let plan = spec_activate_plan(p@, global, old(self).global@).unwrap();
                if global {
                    final(self).global@ == spec_apply_actions(old(self).global@, plan)
                        && final(self).local == old(self).local
                } else {
                    final(self).local@ == spec_apply_actions(old(self).local@, plan)
                        && final(self).global == old(self).global
                }
            }),
            !profile_activatable(p@) ==> ({
                let ids = spec_identity_actions(p@);
                if global {
                    final(self).global@ == spec_apply_actions(old(self).global@, ids)
                        && final(self).local == old(self).local
                } else {
                    final(self).local@ == spec_apply_actions(old(self).local@, ids)
                        && final(self).global == old(self).global
                }
            }),
    {
        let plan_res = activate_plan(p, global, &self.global);
        match plan_res {
            Ok(plan) => {
                if global {
                    self.global.apply_all(&plan);
                } else {
                    self.local.apply_all(&plan);
                }
                Ok(())
            },
            Err(e) => {
                let ids = identity_actions(p);
                if global {
                    self.global.apply_all(&ids);
                } else {
                    self.local.apply_all(&ids);
                }
                Err(e)
            },
        }
    }
}

/// Law: at local scope with signing off, each turned-off key is pinned to
/// its safe default when the global store shadows it — never unset — and is
/// unset outright when it does not — never set.
pub proof fn lemma_local_conditional_unset(p: ProfileView, gc: ScopeConfigView, key: ConfigKey)
    requires
        profile_activatable(p),
        !p.signing,
        p.ssh_key is None,
        key == ConfigKey::CommitGpgsign || key == ConfigKey::TagGpgsign || key
            == ConfigKey::UserSigningkey || key == ConfigKey::CoreSshCommand,
    ensures
        ({
            let plan = spec_activate_plan(p, false, gc).unwrap();
            &&& (gc.spec_get(key) is Some ==> plan.contains(
                ActionView::Write(key, conditional_default(key)),
            ) && (forall|i: int|
                0 <= i < plan.len() ==> ((#[trigger] plan[i]) matches ActionView::Unset(k2)
                    ==> k2 != key)))
            &&& (gc.spec_get(key) is None ==> plan.contains(ActionView::Unset(key)) && (forall|
                i: int,
            |
                0 <= i < plan.len() ==> ((#[trigger] plan[i]) matches ActionView::Write(k2, v2)
                    ==> k2 != key)))
        }),
{
    let plan = spec_activate_plan(p, false, gc).unwrap();
    assert(plan =~= seq![
        ActionView::Write(ConfigKey::UserName, p.user),
        ActionView::Write(ConfigKey::UserEmail, p.email),
        spec_unset_action(ConfigKey::CommitGpgsign, "false"@, false, gc),
        spec_unset_action(ConfigKey::TagGpgsign, "false"@, false, gc),
        spec_unset_action(ConfigKey::UserSigningkey, ""@, false, gc),
        spec_unset_action(ConfigKey::CoreSshCommand, "ssh"@, false, gc),
    ]);
    if gc.spec_get(key) is Some {
        if key == ConfigKey::CommitGpgsign {
            assert(plan[2] == ActionView::Write(key, conditional_default(key)));
        } else if key == ConfigKey::TagGpgsign {
            assert(plan[3] == ActionView::Write(key, conditional_default(key)));
        } else if key == ConfigKey::UserSigningkey {
            assert(plan[4] == ActionView::Write(key, conditional_default(key)));
        } else {
            assert(plan[5] == ActionView::Write(key, conditional_default(key)));
        }
    } else {
        if key == ConfigKey::CommitGpgsign {
            assert(plan[2] == ActionView::Unset(key));
        } else if key == ConfigKey::TagGpgsign {
            assert(plan[3] == ActionView::Unset(key));
        } else if key == ConfigKey::UserSigningkey {
            assert(plan[4] == ActionView::Unset(key));
        } else {
            assert(plan[5] == ActionView::Unset(key));
        }
    }
}

/// Law: activation at global scope never consults the existing global
/// store; the plan is the same whatever it holds.
pub proof fn lemma_global_scope_ignores_probe(
    p: ProfileView,
    gc1: ScopeConfigView,
    gc2: ScopeConfigView,
)
    ensures
        spec_activate_plan(p, true, gc1) == spec_activate_plan(p, true, gc2),
{
    if profile_activatable(p) {
        let plan1 = spec_activate_plan(p, true, gc1).unwrap();
        let plan2 = spec_activate_plan(p, true, gc2).unwrap();
        assert(plan1 =~= plan2);
    }
}

} // verus!
