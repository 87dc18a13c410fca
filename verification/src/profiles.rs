//! Identity profiles and the in-memory profile store.
//!
//! A profile is a named bundle of git identity settings.  The store keeps an
//! ordered list of profiles with unique names; creating a duplicate name and
//! removing an absent name are deliberate no-ops that only report a warning
//! condition to the caller.  Reading and writing the backing file is the
//! caller's business: it hands the document text in and out through the codec.

use vstd::prelude::*;
use crate::util::str_eq;

verus! {

/// Mathematical image of a profile: every string field as a character
/// sequence.
pub struct ProfileView {
    pub name: Seq<char>,
    pub user: Seq<char>,
    pub email: Seq<char>,
    pub signing: bool,
    pub key: Option<Seq<char>>,
    pub ssh_key: Option<Seq<char>>,
}

/// A named identity bundle.  `key` must be present whenever `signing` is
/// true for the profile to be activatable; `ssh_key` is an optional path to
/// a private key used for transport.
#[derive(Debug, PartialEq, Eq)]
pub struct Profile {
    pub name: String,
    pub user: String,
    pub email: String,
    pub signing: bool,
    pub key: Option<String>,
    pub ssh_key: Option<String>,
}

impl View for Profile {
    type V = ProfileView;

    open spec fn view(&self) -> ProfileView {
        ProfileView {
            name: self.name@,
            user: self.user@,
            email: self.email@,
            signing: self.signing,
            key: self.key.deep_view(),
            ssh_key: self.ssh_key.deep_view(),
        }
    }
}

impl DeepView for Profile {
    type V = ProfileView;

    open spec fn deep_view(&self) -> ProfileView {
        self.view()
    }
}

impl Clone for Profile {
    fn clone(&self) -> (res: Self)
        ensures
            res@ == self@,
    {
        Profile {
            name: self.name.clone(),
            user: self.user.clone(),
            email: self.email.clone(),
            signing: self.signing,
            key: match &self.key {
                Some(k) => Some(k.clone()),
                None => None,
            },
            ssh_key: match &self.ssh_key {
                Some(k) => Some(k.clone()),
                None => None,
            },
        }
    }
}

/// The persisted document: one top-level list of profiles, in insertion
/// order.
#[derive(Debug, PartialEq, Eq)]
pub struct ProfilesContent {
    pub profiles: Vec<Profile>,
}

impl View for ProfilesContent {
    type V = Seq<ProfileView>;

    open spec fn view(&self) -> Seq<ProfileView> {
        self.profiles.deep_view()
    }
}

/// First profile whose name matches, scanning left to right.
pub open spec fn find_profile(ps: Seq<ProfileView>, name: Seq<char>) -> Option<ProfileView>
    decreases ps.len(),
{
    if ps.len() == 0 {
        None
    } else if ps[0].name == name {
        Some(ps[0])
    } else {
        find_profile(ps.drop_first(), name)
    }
}

/// Some profile in the list carries this name.
pub open spec fn contains_name(ps: Seq<ProfileView>, name: Seq<char>) -> bool {
    exists|i: int| 0 <= i < ps.len() && ps[i].name == name
}

/// The list with every profile of this name removed, order otherwise kept.
pub open spec fn remove_name(ps: Seq<ProfileView>, name: Seq<char>) -> Seq<ProfileView>
    decreases ps.len(),
{
    if ps.len() == 0 {
        Seq::empty()
    } else if ps[0].name == name {
        remove_name(ps.drop_first(), name)
    } else {
        seq![ps[0]] + remove_name(ps.drop_first(), name)
    }
}

/// The store invariant: no two profiles share a name.
pub open spec fn unique_names(ps: Seq<ProfileView>) -> bool {
    forall|i: int, j: int| 0 <= i < j < ps.len() ==> ps[i].name != ps[j].name
}

/// `find_profile` succeeds exactly on contained names.
pub proof fn lemma_find_profile_some(ps: Seq<ProfileView>, name: Seq<char>)
    ensures
        (find_profile(ps, name) is Some) == contains_name(ps, name),
    decreases ps.len(),
{
    if ps.len() == 0 {
    } else if ps[0].name == name {
        assert(contains_name(ps, name));
    } else {
        lemma_find_profile_some(ps.drop_first(), name);
        if contains_name(ps, name) {
            let i = choose|i: int| 0 <= i < ps.len() && ps[i].name == name;
            assert(ps.drop_first()[i - 1] == ps[i]);
            assert(contains_name(ps.drop_first(), name));
        }
        if contains_name(ps.drop_first(), name) {
            let i = choose|i: int| 0 <= i < ps.drop_first().len() && ps.drop_first()[i].name == name;
            assert(ps[i + 1] == ps.drop_first()[i]);
        }
    }
}

/// Removal distributes over concatenation.
proof fn lemma_remove_name_app(a: Seq<ProfileView>, b: Seq<ProfileView>, name: Seq<char>)
    ensures
        remove_name(a + b, name) == remove_name(a, name) + remove_name(b, name),
    decreases a.len(),
{
    if a.len() == 0 {
        assert(a + b =~= b);
        assert(remove_name(a, name) + remove_name(b, name) =~= remove_name(b, name));
    } else {
        assert((a + b)[0] == a[0]);
        assert((a + b).drop_first() =~= a.drop_first() + b);
        lemma_remove_name_app(a.drop_first(), b, name);
        if a[0].name == name {
        } else {
            assert(seq![a[0]] + (remove_name(a.drop_first(), name) + remove_name(b, name))
                =~= (seq![a[0]] + remove_name(a.drop_first(), name)) + remove_name(b, name));
        }
    }
}

/// Removing a name from a list with one more profile at its end.
proof fn lemma_remove_name_snoc(ps: Seq<ProfileView>, p: ProfileView, name: Seq<char>)
    ensures
        remove_name(ps.push(p), name) == if p.name == name {
            remove_name(ps, name)
        } else {
            remove_name(ps, name).push(p)
        },
{
    reveal_with_fuel(remove_name, 3);
    assert(ps.push(p) =~= ps + seq![p]);
    lemma_remove_name_app(ps, seq![p], name);
    assert(seq![p].drop_first() =~= Seq::<ProfileView>::empty());
    assert(remove_name(seq![p].drop_first(), name) =~= Seq::<ProfileView>::empty());
    if p.name == name {
        assert(remove_name(seq![p], name) =~= Seq::<ProfileView>::empty());
        assert(remove_name(ps, name) + remove_name(seq![p], name) =~= remove_name(ps, name));
    } else {
        assert(remove_name(seq![p], name) =~= seq![p]);
        assert(remove_name(ps, name) + seq![p] =~= remove_name(ps, name).push(p));
    }
}

/// Removing an absent name changes nothing.
pub proof fn lemma_remove_absent(ps: Seq<ProfileView>, name: Seq<char>)
    requires
        !contains_name(ps, name),
    ensures
        remove_name(ps, name) == ps,
    decreases ps.len(),
{
    if ps.len() == 0 {
        assert(remove_name(ps, name) =~= ps);
    } else {
        assert(ps[0].name != name);
        assert(forall|i: int| 0 <= i < ps.drop_first().len()
            ==> ps.drop_first()[i] == ps[i + 1]);
        lemma_remove_absent(ps.drop_first(), name);
        assert(seq![ps[0]] + ps.drop_first() =~= ps);
    }
}

/// No profile of the removed name survives, and every survivor was present.
pub proof fn lemma_remove_name_removes_matches(ps: Seq<ProfileView>, name: Seq<char>)
    ensures
        forall|j: int| 0 <= j < remove_name(ps, name).len()
            ==> (#[trigger] remove_name(ps, name)[j]).name != name && ps.contains(
            remove_name(ps, name)[j]),
    decreases ps.len(),
{
    if ps.len() == 0 {
    } else {
        let rest = ps.drop_first();
        lemma_remove_name_removes_matches(rest, name);
        let r = remove_name(ps, name);
        let rr = remove_name(rest, name);
        assert forall|j: int| 0 <= j < r.len() implies (#[trigger] r[j]).name != name
            && ps.contains(r[j]) by {
            if ps[0].name == name {
                assert(r[j] == rr[j]);
                let k = choose|k: int| 0 <= k < rest.len() && rest[k] == rr[j];
                assert(ps[k + 1] == rr[j]);
            } else {
                assert(r =~= seq![ps[0]] + rr);
                if j == 0 {
                    assert(r[0] == ps[0]);
                } else {
                    assert(r[j] == rr[j - 1]);
                    let k = choose|k: int| 0 <= k < rest.len() && rest[k] == rr[j - 1];
                    assert(ps[k + 1] == rr[j - 1]);
                }
            }
        }
    }
}

/// Removing a present name from a store with unique names shrinks it by
/// exactly one.
pub proof fn lemma_remove_present_len(ps: Seq<ProfileView>, name: Seq<char>)
    requires
        unique_names(ps),
        contains_name(ps, name),
    ensures
        remove_name(ps, name).len() == ps.len() - 1,
    decreases ps.len(),
{
    let rest = ps.drop_first();
    assert(forall|i: int| 0 <= i < rest.len() ==> rest[i] == ps[i + 1]);
    if ps[0].name == name {
        assert(!contains_name(rest, name)) by {
            if contains_name(rest, name) {
                let i = choose|i: int| 0 <= i < rest.len() && rest[i].name == name;
                assert(ps[0].name != ps[i + 1].name);
            }
        }
        lemma_remove_absent(rest, name);
    } else {
        let i = choose|i: int| 0 <= i < ps.len() && ps[i].name == name;
        assert(rest[i - 1].name == name);
        assert(contains_name(rest, name));
        lemma_remove_present_len(rest, name);
    }
}

/// Appending a fresh name keeps the store's names unique.
pub proof fn lemma_create_keeps_unique(ps: Seq<ProfileView>, p: ProfileView)
    requires
        unique_names(ps),
        !contains_name(ps, p.name),
    ensures
        unique_names(ps.push(p)),
{
    let q = ps.push(p);
    assert forall|i: int, j: int| 0 <= i < j < q.len() implies q[i].name != q[j].name by {
        if j < ps.len() {
            assert(q[i] == ps[i]);
            assert(q[j] == ps[j]);
        } else {
            assert(q[i] == ps[i]);
            assert(q[j] == p);
            if ps[i].name == p.name {
                assert(contains_name(ps, p.name));
            }
        }
    }
}

/// Removal keeps the store's names unique.
pub proof fn lemma_remove_keeps_unique(ps: Seq<ProfileView>, name: Seq<char>)
    requires
        unique_names(ps),
    ensures
        unique_names(remove_name(ps, name)),
    decreases ps.len(),
{
    if ps.len() == 0 {
    } else {
        let rest = ps.drop_first();
        assert(forall|i: int| 0 <= i < rest.len() ==> rest[i] == ps[i + 1]);
        assert(unique_names(rest));
        lemma_remove_keeps_unique(rest, name);
        let rr = remove_name(rest, name);
        if ps[0].name == name {
        } else {
            let r = remove_name(ps, name);
            assert(r =~= seq![ps[0]] + rr);
            lemma_remove_name_removes_matches(rest, name);
            assert forall|i: int, j: int| 0 <= i < j < r.len() implies r[i].name != r[j].name by {
                if i == 0 {
                    assert(r[j] == rr[j - 1]);
                    let k = choose|k: int| 0 <= k < rest.len() && rest[k] == rr[j - 1];
                    assert(ps[k + 1] == rr[j - 1]);
                } else {
                    assert(r[i] == rr[i - 1]);
                    assert(r[j] == rr[j - 1]);
                }
            }
        }
    }
}

/// The in-memory profile store: an ordered list of profiles, read from the
/// document once and written back in full after each mutation.
pub struct ProfileRepository {
    pub profiles: Vec<Profile>,
}

impl View for ProfileRepository {
    type V = Seq<ProfileView>;

    open spec fn view(&self) -> Seq<ProfileView> {
        self.profiles.deep_view()
    }
}

impl ProfileRepository {
    /// A store with no profiles, the state of a missing or empty document.
    pub fn new() -> (r: Self)
        ensures
            r@ == Seq::<ProfileView>::empty(),
    {
        let r = ProfileRepository { profiles: Vec::new() };
        proof {
            assert(r@ =~= Seq::<ProfileView>::empty());
        }
        r
    }

    /// A store holding the profiles of a loaded document, in its order.
    pub fn from_content(content: ProfilesContent) -> (r: Self)
        ensures
            r@ == content@,
    {
        ProfileRepository { profiles: content.profiles }
    }

    /// Hand the list back as a document, consuming the store.
    pub fn into_content(self) -> (r: ProfilesContent)
        ensures
            r@ == self@,
    {
        ProfilesContent { profiles: self.profiles }
    }

    /// All stored profiles, in persisted (insertion) order.
    pub fn get_all(&self) -> (r: Vec<Profile>)
        ensures
            r.deep_view() == self@,
    {
        let mut r: Vec<Profile> = Vec::new();
        let n = self.profiles.len();
        let mut i: usize = 0;
        while i < n
            invariant
                n == self.profiles.len(),
                i <= n,
                r.deep_view() =~= self@.take(i as int),
            decreases n - i,
        {
            let ghost prev = r.deep_view();
            let ghost prevv = r@;
            proof {
                assert(prev.len() == i);
                assert(r@.len() == i);
            }
            r.push(self.profiles[i].clone());
            proof {
                let rd = r.deep_view();
                let rv = r@;
                let sv = self@;
                assert(rv == prevv.push(r@[i as int]));
                assert(rd.len() == i + 1);
                assert forall|j: int| 0 <= j < i + 1 implies rd[j] == sv.take(i + 1 as int)[j] by {
                    assert(rd[j] == rv[j].deep_view());
                    assert(sv[j] == self.profiles@[j].deep_view());
                    if j < i {
                        assert(rv[j] == prevv[j]);
                        assert(prev[j] == prevv[j].deep_view());
                        assert(prev[j] == sv.take(i as int)[j]);
                    } else {
                        assert(rv[j].deep_view() == self.profiles@[i as int]@);
                    }
                }
                assert(rd =~= sv.take(i + 1 as int));
            }
            i += 1;
        }
        proof {
            assert(self@.take(n as int) =~= self@);
        }
        r
    }

    /// Linear scan by name; the earliest match wins.
    pub fn find_by_name(&self, profile_name: &str) -> (r: Option<Profile>)
        ensures
            (r is Some) == contains_name(self@, profile_name@),
            match r {
                Some(p) => find_profile(self@, profile_name@) == Some(p@),
                None => find_profile(self@, profile_name@) is None,
            },
    {
        proof {
            lemma_find_profile_some(self@, profile_name@);
        }
        let n = self.profiles.len();
        let mut i: usize = 0;
        proof {
            assert(self@.skip(0) =~= self@);
        }
        while i < n
            invariant
                n == self.profiles.len(),
                i <= n,
                find_profile(self@, profile_name@) == find_profile(
                    self@.skip(i as int),
                    profile_name@,
                ),
            decreases n - i,
        {
            proof {
                assert(self@.skip(i as int)[0] == self@[i as int]);
                assert(self@[i as int] == self.profiles@[i as int].deep_view());
                assert(self@.skip(i as int).drop_first() =~= self@.skip(i + 1 as int));
            }
            if str_eq(self.profiles[i].name.as_str(), profile_name) {
                let p = self.profiles[i].clone();
                assert(find_profile(self@.skip(i as int), profile_name@) == Some(p@));
                return Some(p);
            }
            i += 1;
        }
        proof {
            assert(self@.skip(n as int) =~= Seq::<ProfileView>::empty());
        }
        None
    }

    /// Append a new profile unless its name is already taken; a duplicate
    /// name leaves the store exactly as it was, and the result says whether
    /// the profile was stored (`false` asks the caller to warn).
    pub fn create(&mut self, p: Profile) -> (created: bool)
        ensures
            created == !contains_name(old(self)@, p@.name),
            final(self)@ == if created {
                old(self)@.push(p@)
            } else {
                old(self)@
            },
    {
        let n = self.profiles.len();
        let mut i: usize = 0;
        while i < n
            invariant
                n == self.profiles.len(),
                i <= n,
                self@ == old(self)@,
                forall|j: int| 0 <= j < i ==> (#[trigger] self@[j]).name != p@.name,
            decreases n - i,
        {
            proof {
                assert(self@[i as int] == self.profiles@[i as int].deep_view());
            }
            if str_eq(self.profiles[i].name.as_str(), p.name.as_str()) {
                assert(contains_name(old(self)@, p@.name)) by {
                    assert(self@[i as int].name == p@.name);
                }
                return false;
            }
            i += 1;
        }
        assert(!contains_name(old(self)@, p@.name));
        let ghost before = self@;
        let ghost beforev = self.profiles@;
        let ghost pv = p@;
        proof {
            assert(before.len() == self.profiles@.len());
        }
        self.profiles.push(p);
        proof {
            let sd = self@;
            let sv = self.profiles@;
            assert(sv == beforev.push(sv[before.len() as int]));
            assert(sd.len() == before.len() + 1);
            assert forall|j: int| 0 <= j < before.len() + 1 implies sd[j] == before.push(pv)[j]
                by {
                assert(sd[j] == sv[j].deep_view());
                if j < before.len() {
                    assert(sv[j] == beforev[j]);
                    assert(before[j] == beforev[j].deep_view());
                } else {
                    assert(sv[j]@ == pv);
                }
            }
            assert(sd =~= before.push(pv));
        }
        true
    }

    /// Drop every profile of this name, keeping the order of the rest; the
    /// result says whether anything matched (`false` asks the caller to
    /// warn, and the store is then unchanged).
    pub fn remove(&mut self, profile_name: &str) -> (found: bool)
        ensures
            found == contains_name(old(self)@, profile_name@),
            final(self)@ == remove_name(old(self)@, profile_name@),
    {
        let n = self.profiles.len();
        let mut kept: Vec<Profile> = Vec::new();
        let mut found = false;
        let mut i: usize = 0;
        while i < n
            invariant
                n == self.profiles.len(),
                i <= n,
                self@ == old(self)@,
                kept.deep_view() =~= remove_name(self@.take(i as int), profile_name@),
                found == contains_name(self@.take(i as int), profile_name@),
            decreases n - i,
        {
            proof {
                assert(self@[i as int] == self.profiles@[i as int].deep_view());
                assert(self@.take(i + 1 as int) =~= self@.take(i as int).push(self@[i as int]));
                lemma_remove_name_snoc(self@.take(i as int), self@[i as int], profile_name@);
            }
            let ghost prefix = self@.take(i as int);
            let is_match = str_eq(self.profiles[i].name.as_str(), profile_name);
            if is_match {
                found = true;
                proof {
                    assert(self@.take(i + 1 as int)[i as int].name == profile_name@);
                    assert(contains_name(self@.take(i + 1 as int), profile_name@));
                }
            } else {
                let ghost prev = kept.deep_view();
                let ghost prevv = kept@;
                proof {
                    assert(prev.len() == kept@.len());
                }
                kept.push(self.profiles[i].clone());
                proof {
                    let kd = kept.deep_view();
                    let kv = kept@;
                    assert(kv == prevv.push(kv[prevv.len() as int]));
                    assert(kd.len() == prev.len() + 1);
                    assert forall|j: int| 0 <= j < kd.len() implies kd[j] == remove_name(
                        prefix,
                        profile_name@,
                    ).push(self@[i as int])[j] by {
                        assert(kd[j] == kv[j].deep_view());
                        if j < prevv.len() {
                            assert(kv[j] == prevv[j]);
                            assert(prev[j] == prevv[j].deep_view());
                        } else {
                            assert(kv[j]@ == self.profiles@[i as int]@);
                        }
                    }
                    assert(kd =~= remove_name(prefix, profile_name@).push(self@[i as int]));
                    if contains_name(self@.take(i + 1 as int), profile_name@) {
                        let k = choose|k: int|
                            0 <= k < i + 1 && (#[trigger] self@.take(i + 1 as int)[k]).name
                                == profile_name@;
                        assert(k < i);
                        assert(prefix[k].name == profile_name@);
                    }
                    if contains_name(prefix, profile_name@) {
                        let k = choose|k: int|
                            0 <= k < i && (#[trigger] prefix[k]).name == profile_name@;
                        assert(self@.take(i + 1 as int)[k].name == profile_name@);
                    }
                }
            }
            i += 1;
        }
        proof {
            assert(self@.take(n as int) =~= self@);
        }
        self.profiles = kept;
        found
    }
}

} // verus!
